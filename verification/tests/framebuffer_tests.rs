use chip8::framebuffer::Framebuffer;

#[test]
fn set_on_off_cell_reports_no_collision() {
    let mut fb = Framebuffer::new();
    assert!(!fb.get(3, 4));
    let collision = fb.set(3, 4, true);
    assert!(!collision);
    assert!(fb.get(3, 4));
}

#[test]
fn set_twice_same_cell_collides_and_clears() {
    let mut fb = Framebuffer::new();
    assert!(!fb.set(3, 4, true));
    let collision = fb.set(3, 4, true);
    assert!(collision);
    assert!(!fb.get(3, 4));
}

#[test]
fn set_with_off_state_changes_nothing() {
    let mut fb = Framebuffer::new();
    assert!(!fb.set(1, 1, false));
    assert!(!fb.get(1, 1));
    fb.set(1, 1, true);
    // An incoming off pixel never collides and the XOR leaves the cell as
    // it was.
    assert!(!fb.set(1, 1, false));
    assert!(fb.get(1, 1));
}

#[test]
fn clear_turns_every_pixel_off() {
    let mut fb = Framebuffer::new();
    fb.set(0, 0, true);
    fb.set(63, 31, true);
    fb.clear();
    for x in 0..64 {
        for y in 0..32 {
            assert!(!fb.get(x, y));
        }
    }
}

#[test]
fn corner_pixels_are_independent() {
    let mut fb = Framebuffer::new();
    fb.set(63, 0, true);
    assert!(fb.get(63, 0));
    assert!(!fb.get(0, 0));
    assert!(!fb.get(62, 0));
    assert!(!fb.get(63, 1));
}
