use plentyfs::mountoptions::{split_key_value, MountOptions, UpdateError};

#[test]
fn updates_seed() {
    let mut sut = MountOptions::default();

    sut.update_from("seed=123").unwrap();
    assert_eq!(sut.seed, 0x123);

    sut.update_from("seed=f00").unwrap();
    assert_eq!(sut.seed, 0xf00);

    sut.update_from("seed=ba7ba,seed=f256555895d306f0").unwrap();
    assert_eq!(sut.seed, 0xf256555895d306f0);
}

#[test]
fn returns_err_non_hex_value() {
    let mut sut = MountOptions::default();

    assert_eq!(
        sut.update_from("seed=hello"),
        Err(UpdateError::NonHexValue {
            parameter: "seed".to_string(),
            value: "hello".to_string()
        })
    );
}

#[test]
fn returns_err_value_too_long() {
    let mut sut = MountOptions::default();

    assert_eq!(
        sut.update_from("seed=0123456789abcdef0"),
        Err(UpdateError::ValueTooLong {
            max_allowed_length: 16,
            parameter: "seed".to_string(),
            value: "0123456789abcdef0".to_string(),
        })
    );
}

#[test]
fn returns_err_unsupported_parameter() {
    let mut sut = MountOptions::default();

    assert_eq!(
        sut.update_from("knob=11turns"),
        Err(UpdateError::UnsupportedParameter {
            parameter: "knob".to_string(),
            value: "11turns".to_string(),
        })
    );

    assert_eq!(
        sut.update_from("will this work?"),
        Err(UpdateError::UnsupportedParameter {
            parameter: "will this work?".to_string(),
            value: String::new()
        })
    );
}

#[test]
fn t_split_key_value() {
    assert_eq!(split_key_value(""), ("", ""));
    assert_eq!(split_key_value("hello"), ("hello", ""));
    assert_eq!(split_key_value("key="), ("key", ""));
    assert_eq!(split_key_value("another=example"), ("another", "example"));
    assert_eq!(
        split_key_value("welcome=to=PlentyFS"),
        ("welcome", "to=PlentyFS")
    );
}

#[test]
fn last_seed_wins() {
    let mut sut = MountOptions::new(7);
    sut.update_from("seed=f00,seed=1").unwrap();
    assert_eq!(sut.seed, 0x1);
}

#[test]
fn knob_is_unsupported() {
    let mut sut = MountOptions::new(7);
    assert_eq!(
        sut.update_from("knob=1"),
        Err(UpdateError::UnsupportedParameter {
            parameter: "knob".to_string(),
            value: "1".to_string(),
        })
    );
    assert_eq!(sut.seed, 7);
}

#[test]
fn empty_seed_value_is_no_value() {
    let mut sut = MountOptions::new(7);
    assert_eq!(
        sut.update_from("seed="),
        Err(UpdateError::NoValue {
            parameter: "seed".to_string()
        })
    );
    assert_eq!(
        sut.update_from("seed"),
        Err(UpdateError::NoValue {
            parameter: "seed".to_string()
        })
    );
}

#[test]
fn empty_string_is_unsupported_empty_parameter() {
    let mut sut = MountOptions::new(7);
    assert_eq!(
        sut.update_from(""),
        Err(UpdateError::UnsupportedParameter {
            parameter: String::new(),
            value: String::new(),
        })
    );
    assert_eq!(
        sut.update_from("seed=1,"),
        Err(UpdateError::UnsupportedParameter {
            parameter: String::new(),
            value: String::new(),
        })
    );
    // The tokens before the bad one have been applied.
    assert_eq!(sut.seed, 1);
}

#[test]
fn sixteen_digits_and_uppercase_accepted() {
    let mut sut = MountOptions::new(0);
    sut.update_from("seed=FFFFFFFFFFFFFFFF").unwrap();
    assert_eq!(sut.seed, u64::MAX);
    sut.update_from("seed=00000000000000aB").unwrap();
    assert_eq!(sut.seed, 0xab);
}

#[test]
fn unicode_input_does_not_fault() {
    let mut sut = MountOptions::new(3);
    assert_eq!(
        sut.update_from("séed=ü,x"),
        Err(UpdateError::UnsupportedParameter {
            parameter: "séed".to_string(),
            value: "ü".to_string(),
        })
    );
    assert_eq!(
        sut.update_from("seed=1ü"),
        Err(UpdateError::NonHexValue {
            parameter: "seed".to_string(),
            value: "1ü".to_string(),
        })
    );
    assert_eq!(split_key_value("ä=ö=ü"), ("ä", "ö=ü"));
}

#[test]
fn distinct_hex_values_give_distinct_seeds() {
    let mut sut = MountOptions::new(0);
    sut.update_from("seed=9").unwrap();
    let first = sut.seed;
    sut.update_from("seed=0000a").unwrap();
    assert_ne!(first, sut.seed);
    sut.update_from("seed=09").unwrap();
    assert_eq!(first, sut.seed);
}
