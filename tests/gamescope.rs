use rres::{gamescope, RresError};

#[test]
fn gamescope_native() {
    let args = gamescope("gamescope".to_string(), (2560, 1440), "native").unwrap();
    assert_eq!(args, vec!["gamescope", "-W", "2560", "-H", "1440"]);
}

#[test]
fn gamescope_native_any_case() {
    let args = gamescope("gs".to_string(), (800, 600), "NaTiVe").unwrap();
    assert_eq!(args, vec!["gs", "-W", "800", "-H", "600"]);
}

#[test]
fn gamescope_empty_mode() {
    let args = gamescope("gamescope".to_string(), (7, 10), "").unwrap();
    assert_eq!(args, vec!["gamescope", "-W", "7", "-H", "10"]);
}

#[test]
fn gamescope_upscaling() {
    let args = gamescope("gamescope".to_string(), (1920, 1080), "Ultra").unwrap();
    assert_eq!(
        args,
        vec!["gamescope", "-W", "1920", "-H", "1080", "-U", "-w", "1477", "-h", "831"]
    );
}

#[test]
fn gamescope_upscaling_formula() {
    let args = gamescope("/usr/bin/gamescope".to_string(), (1366, 768), "performance").unwrap();
    assert_eq!(
        args,
        vec!["/usr/bin/gamescope", "-W", "1366", "-H", "768", "-U", "-w", "683", "-h", "384"]
    );
}

#[test]
fn gamescope_bad_mode() {
    assert_eq!(gamescope("gamescope".to_string(), (1920, 1080), "fastest"), Err(RresError::Parse));
}
