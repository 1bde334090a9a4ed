use egui_directx11::utils::unwrap;

#[test]
fn unwrap_returns_the_filled_slot() {
    let r: Result<u32, &str> = unwrap(Ok(()), Some(5));
    assert_eq!(r, Ok(5));
}

#[test]
fn unwrap_passes_the_error_on() {
    let r: Result<u32, &str> = unwrap(Err("device lost"), None);
    assert_eq!(r, Err("device lost"));
    let r: Result<u32, &str> = unwrap(Err("device lost"), Some(1));
    assert_eq!(r, Err("device lost"));
}
