use falling_sand::substance::{Rgba, Substance};

#[test]
fn name_gives_the_variant_label() {
    assert_eq!(Substance::Void.name(), "void");
    assert_eq!(Substance::OutOfBounds.name(), "out of bounds");
    assert_eq!(Substance::Sand(true).name(), "sand");
    assert_eq!(Substance::Rock.name(), "rock");
    assert_eq!(Substance::Water.name(), "water");
    assert_eq!(Substance::Dirt(false, 7).name(), "dirt");
    assert_eq!(Substance::Mud(true, 0).name(), "mud");
    assert_eq!(Substance::Grass(1, 4).name(), "grass");
    assert_eq!(Substance::Fire(10).name(), "fire");
    assert_eq!(Substance::Smoke(100).name(), "smoke");
}

#[test]
fn default_substance_is_void() {
    assert_eq!(Substance::default(), Substance::Void);
}

#[test]
fn default_colors_match_the_palette() {
    assert_eq!(
        Substance::Void.default_color(),
        Rgba { red: 0, green: 0, blue: 0, alpha: 255 }
    );
    assert_eq!(
        Substance::Sand(false).default_color(),
        Rgba { red: 245, green: 245, blue: 220, alpha: 255 }
    );
    assert_eq!(
        Substance::Rock.default_color(),
        Rgba { red: 128, green: 128, blue: 128, alpha: 255 }
    );
    assert_eq!(
        Substance::Water.default_color(),
        Rgba { red: 0, green: 0, blue: 255, alpha: 255 }
    );
    assert_eq!(
        Substance::Dirt(false, 0).default_color(),
        Rgba { red: 139, green: 69, blue: 19, alpha: 255 }
    );
    assert_eq!(
        Substance::Mud(false, 0).default_color(),
        Rgba { red: 165, green: 42, blue: 42, alpha: 255 }
    );
    assert_eq!(
        Substance::Grass(0, 5).default_color(),
        Rgba { red: 0, green: 128, blue: 0, alpha: 255 }
    );
    assert_eq!(
        Substance::Fire(10).default_color(),
        Rgba { red: 218, green: 165, blue: 32, alpha: 255 }
    );
    assert_eq!(
        Substance::Smoke(42).default_color(),
        Rgba { red: 169, green: 169, blue: 169, alpha: 255 }
    );
    assert_eq!(
        Substance::OutOfBounds.default_color(),
        Rgba { red: 255, green: 0, blue: 0, alpha: 255 }
    );
}

#[test]
fn digits_select_fresh_default_substances() {
    assert_eq!(Substance::for_digit(0), Some(Substance::Void));
    assert_eq!(Substance::for_digit(1), Some(Substance::Rock));
    assert_eq!(Substance::for_digit(2), Some(Substance::Sand(false)));
    assert_eq!(Substance::for_digit(3), Some(Substance::Water));
    assert_eq!(Substance::for_digit(4), Some(Substance::Dirt(false, 0)));
    assert_eq!(Substance::for_digit(5), Some(Substance::Mud(false, 0)));
    assert_eq!(Substance::for_digit(6), Some(Substance::Grass(0, 5)));
    assert_eq!(Substance::for_digit(7), None);
    assert_eq!(Substance::for_digit(255), None);
}
