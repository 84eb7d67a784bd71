use binding_helpers::cfgu::{Cfgu, Language, Region, SystemModel};

#[test]
fn region_codes_decode() {
    assert_eq!(Region::try_from(0), Ok(Region::Japan));
    assert_eq!(Region::try_from(1), Ok(Region::USA));
    assert_eq!(Region::try_from(2), Ok(Region::Europe));
    assert_eq!(Region::try_from(3), Ok(Region::Australia));
    assert_eq!(Region::try_from(4), Ok(Region::China));
    assert_eq!(Region::try_from(5), Ok(Region::Korea));
    assert_eq!(Region::try_from(6), Ok(Region::Taiwan));
    assert_eq!(Region::try_from(7), Err(()));
    assert_eq!(Region::try_from(255), Err(()));
}

#[test]
fn region_codes_roundtrip() {
    let all = [
        Region::Japan,
        Region::USA,
        Region::Europe,
        Region::Australia,
        Region::China,
        Region::Korea,
        Region::Taiwan,
    ];
    for r in all {
        assert_eq!(Region::try_from(r.to_raw()), Ok(r));
    }
}

#[test]
fn language_codes_decode() {
    assert_eq!(Language::try_from(0), Ok(Language::Japanese));
    assert_eq!(Language::try_from(1), Ok(Language::English));
    assert_eq!(Language::try_from(2), Ok(Language::French));
    assert_eq!(Language::try_from(3), Ok(Language::German));
    assert_eq!(Language::try_from(4), Ok(Language::Italian));
    assert_eq!(Language::try_from(5), Ok(Language::Spanish));
    assert_eq!(Language::try_from(6), Ok(Language::SimplifiedChinese));
    assert_eq!(Language::try_from(7), Ok(Language::Korean));
    assert_eq!(Language::try_from(8), Ok(Language::Dutch));
    assert_eq!(Language::try_from(9), Ok(Language::Portuguese));
    assert_eq!(Language::try_from(10), Ok(Language::Russian));
    assert_eq!(Language::try_from(11), Ok(Language::TraditionalChinese));
    assert_eq!(Language::try_from(12), Err(()));
    assert_eq!(Language::try_from(-1), Err(()));
}

#[test]
fn language_codes_roundtrip() {
    let all = [
        Language::Japanese,
        Language::English,
        Language::French,
        Language::German,
        Language::Italian,
        Language::Spanish,
        Language::SimplifiedChinese,
        Language::Korean,
        Language::Dutch,
        Language::Portuguese,
        Language::Russian,
        Language::TraditionalChinese,
    ];
    for l in all {
        assert_eq!(Language::try_from(l.to_raw()), Ok(l));
    }
}

#[test]
fn model_codes_decode() {
    assert_eq!(SystemModel::try_from(0), Ok(SystemModel::Old3DS));
    assert_eq!(SystemModel::try_from(1), Ok(SystemModel::Old3DSXL));
    assert_eq!(SystemModel::try_from(2), Ok(SystemModel::New3DS));
    assert_eq!(SystemModel::try_from(3), Ok(SystemModel::Old2DS));
    assert_eq!(SystemModel::try_from(4), Ok(SystemModel::New3DSXL));
    assert_eq!(SystemModel::try_from(5), Ok(SystemModel::New2DSXL));
    assert_eq!(SystemModel::try_from(6), Err(()));
}

#[test]
fn model_codes_roundtrip() {
    let all = [
        SystemModel::Old3DS,
        SystemModel::Old3DSXL,
        SystemModel::New3DS,
        SystemModel::Old2DS,
        SystemModel::New3DSXL,
        SystemModel::New2DSXL,
    ];
    for m in all {
        assert_eq!(SystemModel::try_from(m.to_raw()), Ok(m));
    }
}

#[test]
fn service_initialisation_follows_the_result_code() {
    assert!(Cfgu::new(0).is_ok());
    assert!(Cfgu::new(1).is_ok());
    match Cfgu::new(-5) {
        Err(code) => assert_eq!(code, -5),
        Ok(_) => panic!("a negative result code must fail"),
    }
}

#[test]
fn service_decoding_delegates() {
    let cfgu = Cfgu::new(0).unwrap();
    assert_eq!(cfgu.region(2), Ok(Region::Europe));
    assert_eq!(cfgu.model(3), Ok(SystemModel::Old2DS));
    assert_eq!(cfgu.language(1), Ok(Language::English));
    assert_eq!(cfgu.region(200), Err(()));
    assert!(cfgu.is_2ds_family(0));
    assert!(!cfgu.is_2ds_family(1));
}
