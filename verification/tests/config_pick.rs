use face_cascade::demo::gl_config_picker;

#[test]
fn first_transparent_configuration_is_picked() {
    assert_eq!(gl_config_picker(&vec![false, false, true, false, true]), 2);
    assert_eq!(gl_config_picker(&vec![true, true]), 0);
    assert_eq!(gl_config_picker(&vec![false, true]), 1);
}

#[test]
fn first_configuration_is_picked_when_none_is_transparent() {
    assert_eq!(gl_config_picker(&vec![false]), 0);
    assert_eq!(gl_config_picker(&vec![false, false, false]), 0);
}

#[test]
fn pick_agrees_with_a_pairwise_reduction() {
    for bits in 1u32..64 {
        let flags: Vec<bool> = (0..6).map(|k| bits & (1 << k) != 0).collect();
        let reduced = flags
            .iter()
            .copied()
            .enumerate()
            .reduce(|accum, config| if config.1 & !accum.1 { config } else { accum })
            .unwrap();
        assert_eq!(gl_config_picker(&flags), reduced.0);
    }
}
