//! Resolving the display mode of each connected connector of a device, from
//! a snapshot of what the kernel reported for it, and gathering the modes of
//! all scanned devices.
use vstd::prelude::*;

use crate::error::RresError;

verus! {

/// A display mode's resolution, in pixels.
#[derive(Clone, Copy, Debug, PartialEq, Eq, Structural)]
pub struct Mode {
    pub width: u16,
    pub height: u16,
}

impl Mode {
    /// The mode's resolution as `(width, height)`.
    pub fn size(&self) -> (r: (u16, u16))
        ensures
            r == (self.width, self.height),
    {
        (self.width, self.height)
    }
}

/// Whether a display is attached to a connector.
#[derive(Clone, Copy, Debug, PartialEq, Eq, Structural)]
pub enum ConnectionState {
    Connected,
    Disconnected,
    Unknown,
}

/// What the kernel reports of one connector.
#[derive(Debug)]
pub struct ConnectorInfo {
    pub state: ConnectionState,
    /// The handle of the encoder that currently drives the connector.
    pub current_encoder: Option<u32>,
    /// The modes the connector supports; the first is its native mode.
    pub modes: Vec<Mode>,
}

/// What the kernel reports of one encoder.
#[derive(Clone, Copy, Debug, PartialEq, Eq, Structural)]
pub struct EncoderInfo {
    pub handle: u32,
    /// The handle of the CRTC that currently feeds the encoder.
    pub crtc: Option<u32>,
}

/// What the kernel reports of one CRTC.
#[derive(Clone, Copy, Debug, PartialEq, Eq, Structural)]
pub struct CrtcInfo {
    pub handle: u32,
    /// The mode currently programmed on the CRTC.
    pub mode: Option<Mode>,
}

/// A snapshot of one device's connectors, encoders and CRTCs, in the order
/// of its resource handles.
#[derive(Debug)]
pub struct CardInfo {
    pub connectors: Vec<ConnectorInfo>,
    pub encoders: Vec<EncoderInfo>,
    pub crtcs: Vec<CrtcInfo>,
}

/// How a connected connector's mode was found.
#[derive(Clone, Copy, Debug, PartialEq, Eq, Structural)]
pub enum ModeLookup {
    /// The mode currently programmed on the CRTC that drives the connector.
    Found(Mode),
    /// The connector's native mode, as no active encoder and CRTC chain with
    /// a current mode could be followed.
    Fallback(Mode),
    /// Neither a current mode nor any listed mode is known.
    Unresolvable,
}

impl ModeLookup {
    /// The mode found, if any.
    pub fn mode(&self) -> (r: Option<Mode>)
        ensures
            r == lookup_mode(*self),
    {
        match self {
            ModeLookup::Found(m) => Some(*m),
            ModeLookup::Fallback(m) => Some(*m),
            ModeLookup::Unresolvable => None,
        }
    }
}

/// The mode that a lookup yields, if any.
pub open spec fn lookup_mode(l: ModeLookup) -> Option<Mode> {
    match l {
        ModeLookup::Found(m) => Some(m),
        ModeLookup::Fallback(m) => Some(m),
        ModeLookup::Unresolvable => None,
    }
}

/// The first encoder with handle `h`.
pub open spec fn find_encoder_spec(encoders: Seq<EncoderInfo>, h: u32) -> Option<EncoderInfo>
    decreases encoders.len(),
{
    if encoders.len() == 0 {
        None
    } else if encoders[0].handle == h {
        Some(encoders[0])
    } else {
        find_encoder_spec(encoders.drop_first(), h)
    }
}

/// The first CRTC with handle `h`.
pub open spec fn find_crtc_spec(crtcs: Seq<CrtcInfo>, h: u32) -> Option<CrtcInfo>
    decreases crtcs.len(),
{
    if crtcs.len() == 0 {
        None
    } else if crtcs[0].handle == h {
        Some(crtcs[0])
    } else {
        find_crtc_spec(crtcs.drop_first(), h)
    }
}

/// The current mode reached by following connector, encoder, CRTC, if every
/// link of that chain is present.
pub open spec fn active_mode(
    c: ConnectorInfo,
    encoders: Seq<EncoderInfo>,
    crtcs: Seq<CrtcInfo>,
) -> Option<Mode> {
    match c.current_encoder {
        None => None,
        Some(eh) => match find_encoder_spec(encoders, eh) {
            None => None,
            Some(e) => match e.crtc {
                None => None,
                Some(ch) => match find_crtc_spec(crtcs, ch) {
                    None => None,
                    Some(crtc) => crtc.mode,
                },
            },
        },
    }
}

/// The mode of a connected connector: the active mode, else its first
/// listed mode.
pub open spec fn lookup_spec(
    c: ConnectorInfo,
    encoders: Seq<EncoderInfo>,
    crtcs: Seq<CrtcInfo>,
) -> ModeLookup {
    match active_mode(c, encoders, crtcs) {
        Some(m) => ModeLookup::Found(m),
        None => if c.modes@.len() > 0 {
            ModeLookup::Fallback(c.modes@[0])
        } else {
            ModeLookup::Unresolvable
        },
    }
}

/// The mode a connector contributes to the display list: none unless it is
/// connected and its mode can be resolved.
pub open spec fn reported(
    c: ConnectorInfo,
    encoders: Seq<EncoderInfo>,
    crtcs: Seq<CrtcInfo>,
) -> Option<Mode> {
    if c.state == ConnectionState::Connected {
        lookup_mode(lookup_spec(c, encoders, crtcs))
    } else {
        None
    }
}

/// The modes reported by `connectors`, in their order.
pub open spec fn modes_of(
    connectors: Seq<ConnectorInfo>,
    encoders: Seq<EncoderInfo>,
    crtcs: Seq<CrtcInfo>,
) -> Seq<Mode>
    decreases connectors.len(),
{
    if connectors.len() == 0 {
        seq![]
    } else {
        let prev = modes_of(connectors.drop_last(), encoders, crtcs);
        match reported(connectors.last(), encoders, crtcs) {
            Some(m) => prev.push(m),
            None => prev,
        }
    }
}

/// The modes reported by a device's connectors.
pub open spec fn card_modes(card: CardInfo) -> Seq<Mode> {
    modes_of(card.connectors@, card.encoders@, card.crtcs@)
}

/// The modes of every device that could be read, device after device.
pub open spec fn displays_of(cards: Seq<Result<CardInfo, RresError>>) -> Seq<Mode>
    decreases cards.len(),
{
    if cards.len() == 0 {
        seq![]
    } else {
        displays_of(cards.drop_last()) + match cards.last() {
            Ok(card) => card_modes(card),
            Err(_) => seq![],
        }
    }
}

/// The resolution of display `index` of a display list.
pub open spec fn select_spec(displays: Seq<Mode>, index: int) -> Result<(u16, u16), RresError> {
    if displays.len() == 0 {
        Err(RresError::NoDisplaysFound)
    } else if index >= displays.len() {
        Err(RresError::IndexOutOfRange)
    } else {
        Ok((displays[index].width, displays[index].height))
    }
}

/// The first encoder of `encoders` with handle `handle`.
pub fn find_encoder(encoders: &Vec<EncoderInfo>, handle: u32) -> (r: Option<EncoderInfo>)
    ensures
        r == find_encoder_spec(encoders@, handle),
{
    let n = encoders.len();
    let mut i: usize = 0;
    assert(encoders@.subrange(0, n as int) =~= encoders@);
    while i < n
        invariant
            n == encoders@.len(),
            i <= n,
            find_encoder_spec(encoders@, handle) == find_encoder_spec(
                encoders@.subrange(i as int, n as int),
                handle,
            ),
        decreases n - i,
    {
        let ghost rest = encoders@.subrange(i as int, n as int);
        assert(rest.drop_first() =~= encoders@.subrange(i + 1, n as int));
        if encoders[i].handle == handle {
            return Some(encoders[i]);
        }
        i = i + 1;
    }
    None
}

/// The first CRTC of `crtcs` with handle `handle`.
pub fn find_crtc(crtcs: &Vec<CrtcInfo>, handle: u32) -> (r: Option<CrtcInfo>)
    ensures
        r == find_crtc_spec(crtcs@, handle),
{
    let n = crtcs.len();
    let mut i: usize = 0;
    assert(crtcs@.subrange(0, n as int) =~= crtcs@);
    while i < n
        invariant
            n == crtcs@.len(),
            i <= n,
            find_crtc_spec(crtcs@, handle) == find_crtc_spec(
                crtcs@.subrange(i as int, n as int),
                handle,
            ),
        decreases n - i,
    {
        let ghost rest = crtcs@.subrange(i as int, n as int);
        assert(rest.drop_first() =~= crtcs@.subrange(i + 1, n as int));
        if crtcs[i].handle == handle {
            return Some(crtcs[i]);
        }
        i = i + 1;
    }
    None
}

/// The mode of a connector of `card`: the mode currently programmed on the
/// CRTC that drives it, else its native mode. A connector that is not
/// connected has none.
pub fn get_connector_mode(card: &CardInfo, connector: &ConnectorInfo) -> (r: Result<
    ModeLookup,
    RresError,
>)
    ensures
        connector.state != ConnectionState::Connected ==> r == Err::<ModeLookup, RresError>(
            RresError::ConnectorDisconnected,
        ),
        connector.state == ConnectionState::Connected ==> r == Ok::<ModeLookup, RresError>(
            lookup_spec(*connector, card.encoders@, card.crtcs@),
        ),
{
    if connector.state != ConnectionState::Connected {
        return Err(RresError::ConnectorDisconnected);
    }
    if let Some(encoder_handle) = connector.current_encoder {
        if let Some(encoder) = find_encoder(&card.encoders, encoder_handle) {
            if let Some(crtc_handle) = encoder.crtc {
                if let Some(crtc) = find_crtc(&card.crtcs, crtc_handle) {
                    if let Some(mode) = crtc.mode {
                        return Ok(ModeLookup::Found(mode));
                    }
                }
            }
        }
    }
    if connector.modes.len() > 0 {
        Ok(ModeLookup::Fallback(connector.modes[0]))
    } else {
        Ok(ModeLookup::Unresolvable)
    }
}

/// The modes of the connected connectors of `card`, in connector order.
pub fn get_card_modes(card: &CardInfo) -> (r: Vec<Mode>)
    ensures
        r@ == card_modes(*card),
{
    let mut modes: Vec<Mode> = Vec::new();
    let n = card.connectors.len();
    let mut i: usize = 0;
    while i < n
        invariant
            n == card.connectors@.len(),
            i <= n,
            modes@ == modes_of(
                card.connectors@.subrange(0, i as int),
                card.encoders@,
                card.crtcs@,
            ),
        decreases n - i,
    {
        let ghost done = card.connectors@.subrange(0, i + 1);
        assert(done.drop_last() =~= card.connectors@.subrange(0, i as int));
        let connector = &card.connectors[i];
        if connector.state == ConnectionState::Connected {
            if let Ok(lookup) = get_connector_mode(card, connector) {
                if let Some(mode) = lookup.mode() {
                    modes.push(mode);
                }
            }
        }
        i = i + 1;
    }
    assert(card.connectors@.subrange(0, n as int) =~= card.connectors@);
    modes
}

/// The modes of every device in `cards`, device after device; a device that
/// could not be read contributes none.
pub fn get_displays(cards: &Vec<Result<CardInfo, RresError>>) -> (r: Vec<Mode>)
    ensures
        r@ == displays_of(cards@),
{
    let mut displays: Vec<Mode> = Vec::new();
    let n = cards.len();
    let mut i: usize = 0;
    while i < n
        invariant
            n == cards@.len(),
            i <= n,
            displays@ == displays_of(cards@.subrange(0, i as int)),
        decreases n - i,
    {
        let ghost done = cards@.subrange(0, i + 1);
        assert(done.drop_last() =~= cards@.subrange(0, i as int));
        if let Ok(card) = &cards[i] {
            let mut modes = get_card_modes(card);
            displays.append(&mut modes);
        } else {
            assert(displays@ =~= displays@ + Seq::<Mode>::empty());
        }
        i = i + 1;
    }
    assert(cards@.subrange(0, n as int) =~= cards@);
    displays
}

/// The resolution of display `index` of `displays`.
pub fn get_display(displays: &Vec<Mode>, index: usize) -> (r: Result<(u16, u16), RresError>)
    ensures
        r == select_spec(displays@, index as int),
{
    if displays.len() == 0 {
        Err(RresError::NoDisplaysFound)
    } else if index >= displays.len() {
        Err(RresError::IndexOutOfRange)
    } else {
        Ok(displays[index].size())
    }
}

/// Splitting a connector list anywhere splits its modes at the same place:
/// the modes come in connector order.
pub proof fn lemma_modes_in_connector_order(
    connectors: Seq<ConnectorInfo>,
    encoders: Seq<EncoderInfo>,
    crtcs: Seq<CrtcInfo>,
    k: int,
)
    requires
        0 <= k <= connectors.len(),
    ensures
        modes_of(connectors, encoders, crtcs) == modes_of(connectors.subrange(0, k), encoders, crtcs)
            + modes_of(connectors.subrange(k, connectors.len() as int), encoders, crtcs),
    decreases connectors.len(),
{
    let n = connectors.len() as int;
    if k == n {
        assert(connectors.subrange(0, k) =~= connectors);
        assert(connectors.subrange(k, n).len() == 0);
        assert(modes_of(connectors, encoders, crtcs) + Seq::<Mode>::empty() =~= modes_of(
            connectors,
            encoders,
            crtcs,
        ));
    } else {
        let init = connectors.drop_last();
        lemma_modes_in_connector_order(init, encoders, crtcs, k);
        assert(init.subrange(0, k) =~= connectors.subrange(0, k));
        assert(connectors.subrange(k, n).drop_last() =~= init.subrange(k, n - 1));
        assert(connectors.subrange(k, n).last() == connectors.last());
        let a = modes_of(connectors.subrange(0, k), encoders, crtcs);
        let b = modes_of(init.subrange(k, n - 1), encoders, crtcs);
        match reported(connectors.last(), encoders, crtcs) {
            Some(m) => {
                assert((a + b).push(m) =~= a + b.push(m));
            },
            None => {},
        }
    }
}

/// A connector that is not connected never shows in the modes: leaving it
/// out of the list changes nothing.
pub proof fn lemma_disconnected_not_reported(
    connectors: Seq<ConnectorInfo>,
    encoders: Seq<EncoderInfo>,
    crtcs: Seq<CrtcInfo>,
    j: int,
)
    requires
        0 <= j < connectors.len(),
        connectors[j].state != ConnectionState::Connected,
    ensures
        modes_of(connectors, encoders, crtcs) == modes_of(connectors.remove(j), encoders, crtcs),
{
    let n = connectors.len() as int;
    let rest = connectors.subrange(j, n);
    lemma_modes_in_connector_order(connectors, encoders, crtcs, j);
    lemma_modes_in_connector_order(rest, encoders, crtcs, 1);
    let single = rest.subrange(0, 1);
    assert(single.drop_last().len() == 0);
    assert(modes_of(single.drop_last(), encoders, crtcs) =~= Seq::<Mode>::empty());
    assert(single.last() == connectors[j]);
    assert(single.len() == 1);
    assert(modes_of(single, encoders, crtcs) =~= Seq::<Mode>::empty());
    assert(rest.subrange(1, rest.len() as int) =~= connectors.subrange(j + 1, n));
    let removed = connectors.remove(j);
    lemma_modes_in_connector_order(removed, encoders, crtcs, j);
    assert(removed.subrange(0, j) =~= connectors.subrange(0, j));
    assert(removed.subrange(j, n - 1) =~= connectors.subrange(j + 1, n));
    assert(Seq::<Mode>::empty() + modes_of(connectors.subrange(j + 1, n), encoders, crtcs)
        =~= modes_of(connectors.subrange(j + 1, n), encoders, crtcs));
}

/// A connected connector without a followable encoder and CRTC chain keeps
/// its place in the modes, with its first listed mode.
pub proof fn lemma_fallback_to_native_mode(
    connectors: Seq<ConnectorInfo>,
    encoders: Seq<EncoderInfo>,
    crtcs: Seq<CrtcInfo>,
    j: int,
)
    requires
        0 <= j < connectors.len(),
        connectors[j].state == ConnectionState::Connected,
        active_mode(connectors[j], encoders, crtcs) is None,
        connectors[j].modes@.len() > 0,
    ensures
        modes_of(connectors, encoders, crtcs) == modes_of(connectors.subrange(0, j), encoders, crtcs)
            + seq![connectors[j].modes@[0]] + modes_of(
            connectors.subrange(j + 1, connectors.len() as int),
            encoders,
            crtcs,
        ),
{
    let n = connectors.len() as int;
    let rest = connectors.subrange(j, n);
    lemma_modes_in_connector_order(connectors, encoders, crtcs, j);
    lemma_modes_in_connector_order(rest, encoders, crtcs, 1);
    let single = rest.subrange(0, 1);
    assert(single.drop_last().len() == 0);
    assert(modes_of(single.drop_last(), encoders, crtcs) =~= Seq::<Mode>::empty());
    assert(single.last() == connectors[j]);
    assert(single.len() == 1);
    assert(modes_of(single, encoders, crtcs) =~= seq![connectors[j].modes@[0]]);
    assert(rest.subrange(1, rest.len() as int) =~= connectors.subrange(j + 1, n));
    let a = modes_of(connectors.subrange(0, j), encoders, crtcs);
    let c = modes_of(connectors.subrange(j + 1, n), encoders, crtcs);
    assert(a + (seq![connectors[j].modes@[0]] + c) =~= a + seq![connectors[j].modes@[0]] + c);
}

/// The number of connected connectors in a list.
pub open spec fn connected_count(connectors: Seq<ConnectorInfo>) -> nat
    decreases connectors.len(),
{
    if connectors.len() == 0 {
        0
    } else {
        connected_count(connectors.drop_last()) + if connectors.last().state
            == ConnectionState::Connected {
            1nat
        } else {
            0nat
        }
    }
}

/// Where every connected connector lists a mode, there is exactly one mode
/// per connected connector.
pub proof fn lemma_one_mode_per_connected(
    connectors: Seq<ConnectorInfo>,
    encoders: Seq<EncoderInfo>,
    crtcs: Seq<CrtcInfo>,
)
    requires
        forall|j: int|
            0 <= j < connectors.len() && #[trigger] connectors[j].state
                == ConnectionState::Connected ==> connectors[j].modes@.len() > 0,
    ensures
        modes_of(connectors, encoders, crtcs).len() == connected_count(connectors),
    decreases connectors.len(),
{
    if connectors.len() > 0 {
        let init = connectors.drop_last();
        assert forall|j: int|
            0 <= j < init.len() && #[trigger] init[j].state
                == ConnectionState::Connected implies init[j].modes@.len() > 0 by {
            assert(init[j] == connectors[j]);
        }
        lemma_one_mode_per_connected(init, encoders, crtcs);
        assert(connectors.last() == connectors[connectors.len() - 1]);
    }
}

/// Splitting a device list anywhere splits the displays at the same place:
/// the displays come in device order.
pub proof fn lemma_displays_in_device_order(cards: Seq<Result<CardInfo, RresError>>, k: int)
    requires
        0 <= k <= cards.len(),
    ensures
        displays_of(cards) == displays_of(cards.subrange(0, k)) + displays_of(
            cards.subrange(k, cards.len() as int),
        ),
    decreases cards.len(),
{
    let n = cards.len() as int;
    if k == n {
        assert(cards.subrange(0, k) =~= cards);
        assert(cards.subrange(k, n).len() == 0);
        assert(displays_of(cards) + Seq::<Mode>::empty() =~= displays_of(cards));
    } else {
        let init = cards.drop_last();
        lemma_displays_in_device_order(init, k);
        assert(init.subrange(0, k) =~= cards.subrange(0, k));
        assert(cards.subrange(k, n).drop_last() =~= init.subrange(k, n - 1));
        assert(cards.subrange(k, n).last() == cards.last());
        let a = displays_of(cards.subrange(0, k));
        let b = displays_of(init.subrange(k, n - 1));
        let c = match cards.last() {
            Ok(card) => card_modes(card),
            Err(_) => Seq::<Mode>::empty(),
        };
        assert((a + b) + c =~= a + (b + c));
    }
}

/// A device that could not be read is left out without failing the query:
/// the displays are those of the other devices, in their order.
pub proof fn lemma_failed_device_skipped(cards: Seq<Result<CardInfo, RresError>>, k: int)
    requires
        0 <= k < cards.len(),
        cards[k] is Err,
    ensures
        displays_of(cards) == displays_of(cards.remove(k)),
{
    let n = cards.len() as int;
    let rest = cards.subrange(k, n);
    lemma_displays_in_device_order(cards, k);
    lemma_displays_in_device_order(rest, 1);
    let single = rest.subrange(0, 1);
    assert(single.drop_last().len() == 0);
    assert(displays_of(single.drop_last()) =~= Seq::<Mode>::empty());
    assert(single.last() == cards[k]);
    assert(single.len() == 1);
    assert(displays_of(single) =~= Seq::<Mode>::empty());
    assert(rest.subrange(1, rest.len() as int) =~= cards.subrange(k + 1, n));
    let removed = cards.remove(k);
    lemma_displays_in_device_order(removed, k);
    assert(removed.subrange(0, k) =~= cards.subrange(0, k));
    assert(removed.subrange(k, n - 1) =~= cards.subrange(k + 1, n));
    assert(Seq::<Mode>::empty() + displays_of(cards.subrange(k + 1, n)) =~= displays_of(
        cards.subrange(k + 1, n),
    ));
}

/// On a non-empty display list, selecting a display fails with
/// `IndexOutOfRange` exactly when the index is past the end of the list.
pub proof fn lemma_index_out_of_range(displays: Seq<Mode>, index: int)
    requires
        displays.len() > 0,
        index >= 0,
    ensures
        select_spec(displays, index) == Err::<(u16, u16), RresError>(RresError::IndexOutOfRange)
            <==> index >= displays.len(),
{
}

} // verus!
