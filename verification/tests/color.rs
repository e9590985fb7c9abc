//! How clients describe colors.

use tessera::extensions::color_management::{
    capabilities, fresh_identity, is_profile, named_primaries, named_transfer,
    pipeline_description, primaries_wire_id, set_image_description, transfer_wire_id,
    ColorOutputs, ColorSurfaceError, ContentColor, ContentPrimaries, ContentTransfer,
    CreatorError, CustomPrimaries, IccCreator, ImageDescription, InfoEvent, Information,
    Luminances, NamedPrimaries, NamedTransfer, ParamsCreator, SurfaceColor, SurfaceExists,
    PRIMARIES_ADOBE_RGB, PRIMARIES_BT2020, PRIMARIES_DISPLAY_P3, PRIMARIES_SRGB,
    TF_COMPOUND_POWER_2_4, TF_EXT_LINEAR, TF_GAMMA22, TF_HLG, TF_SRGB, TF_ST2084_PQ,
};
use tessera::kms::info::ColorPipeline;

const SDR: Luminances = Luminances {
    min: 2_000,
    max: 80,
    reference: 203,
};

const HDR: Luminances = Luminances {
    min: 50,
    max: 1_000,
    reference: 203,
};

#[test]
fn named_transfer_mapping_round_trips_through_wire_ids() {
    for (wire, expected) in [
        (TF_EXT_LINEAR, NamedTransfer::Linear),
        (TF_GAMMA22, NamedTransfer::Gamma22),
        (TF_SRGB, NamedTransfer::Srgb),
        (TF_COMPOUND_POWER_2_4, NamedTransfer::Srgb),
        (TF_ST2084_PQ, NamedTransfer::Pq),
        (TF_HLG, NamedTransfer::Hlg),
    ] {
        let Some(ContentTransfer::Named(named)) = named_transfer(wire) else {
            panic!("wire id {wire} must map");
        };
        assert_eq!(named, expected);
    }
    assert_eq!(transfer_wire_id(NamedTransfer::Srgb, 1), TF_SRGB);
    assert_eq!(
        transfer_wire_id(NamedTransfer::Srgb, 2),
        TF_COMPOUND_POWER_2_4
    );
    for (named, wire) in [
        (NamedTransfer::Linear, TF_EXT_LINEAR),
        (NamedTransfer::Gamma22, TF_GAMMA22),
        (NamedTransfer::Pq, TF_ST2084_PQ),
        (NamedTransfer::Hlg, TF_HLG),
    ] {
        assert_eq!(transfer_wire_id(named, 1), wire);
        assert_eq!(transfer_wire_id(named, 2), wire);
    }
    assert!(named_transfer(1).is_none());
}

#[test]
fn named_primaries_mapping_round_trips_through_wire_ids() {
    for (wire, expected) in [
        (PRIMARIES_SRGB, NamedPrimaries::Srgb),
        (PRIMARIES_BT2020, NamedPrimaries::Bt2020),
        (PRIMARIES_DISPLAY_P3, NamedPrimaries::DisplayP3),
        (PRIMARIES_ADOBE_RGB, NamedPrimaries::AdobeRgb),
    ] {
        assert_eq!(named_primaries(wire), Some(expected));
        assert_eq!(primaries_wire_id(expected), wire);
    }
    assert_eq!(named_primaries(7), None);
}

#[test]
fn pipeline_description_follows_the_session_mode() {
    let sdr = pipeline_description(ColorPipeline::Sdr, SDR, HDR);
    assert_eq!(sdr.primaries, ContentPrimaries::Named(NamedPrimaries::Srgb));
    assert_eq!(sdr.transfer, ContentTransfer::Named(NamedTransfer::Srgb));
    assert_eq!(sdr.luminances, Some(SDR));
    let deep = pipeline_description(ColorPipeline::SdrDeepColor, SDR, HDR);
    assert_eq!(deep, sdr);
    let hdr = pipeline_description(ColorPipeline::Hdr, SDR, HDR);
    assert_eq!(
        hdr.primaries,
        ContentPrimaries::Named(NamedPrimaries::Bt2020)
    );
    assert_eq!(hdr.transfer, ContentTransfer::Named(NamedTransfer::Pq));
    assert_eq!(hdr.luminances, Some(HDR));
}

#[test]
fn clients_are_told_numbers_of_their_version() {
    let old = capabilities(1);
    assert_eq!(old.intents, vec![0, 1]);
    assert_eq!(old.features, vec![0, 1, 2, 3, 4]);
    assert_eq!(old.transfers, vec![5, 2, 9, 11, 13]);
    assert_eq!(old.primaries, vec![1, 6, 9, 10]);
    assert_eq!(capabilities(2).transfers, vec![5, 2, 14, 11, 13]);
}

#[test]
fn identities_are_never_zero() {
    let mut counter = u32::MAX;
    assert_eq!(fresh_identity(&mut counter), u32::MAX);
    assert_eq!(fresh_identity(&mut counter), 1);
    assert_eq!(fresh_identity(&mut counter), 1);
    assert_eq!(fresh_identity(&mut counter), 2);
}

#[test]
fn parameters_are_given_once() {
    let mut creator = ParamsCreator::new();
    assert!(matches!(creator.create(), Err(CreatorError::IncompleteSet)));
    assert_eq!(creator.set_tf_named(1), Err(CreatorError::InvalidTf));
    assert_eq!(creator.set_tf_power(4_999), Err(CreatorError::InvalidTf));
    assert_eq!(creator.set_tf_power(80_001), Err(CreatorError::InvalidTf));
    assert_eq!(creator.set_tf_power(24_000), Ok(()));
    assert_eq!(creator.set_tf_named(9), Err(CreatorError::AlreadySet));
    assert_eq!(
        creator.set_primaries_named(7),
        Err(CreatorError::InvalidPrimariesNamed)
    );
    assert!(matches!(creator.create(), Err(CreatorError::IncompleteSet)));
    assert_eq!(creator.set_primaries_named(9), Ok(()));
    assert_eq!(
        creator.set_primaries_named(9),
        Err(CreatorError::AlreadySet)
    );
    assert_eq!(
        creator.set_luminances(0, 0, 1),
        Err(CreatorError::InvalidLuminance)
    );
    assert_eq!(
        creator.set_luminances(0, 1, 0),
        Err(CreatorError::InvalidLuminance)
    );
    assert_eq!(
        creator.set_luminances(10_001, 1, 1),
        Err(CreatorError::InvalidLuminance)
    );
    assert_eq!(creator.set_luminances(10_000, 1, 1), Ok(()));
    assert_eq!(
        creator.set_luminances(0, 1, 1),
        Err(CreatorError::AlreadySet)
    );
    assert_eq!(
        creator.set_mastering(),
        Err(CreatorError::UnsupportedFeature)
    );
    creator.set_max_cll(5);
    creator.set_max_cll(6);
    creator.set_max_fall(7);
    let description = creator.create().unwrap();
    assert!(!description.failed);
    let Information::Parameters(events) = description.information(1) else {
        panic!("parameters");
    };
    assert_eq!(
        events,
        vec![
            InfoEvent::PrimariesNamed(9),
            InfoEvent::TfPower(24_000),
            InfoEvent::Luminances(Luminances {
                min: 10_000,
                max: 1,
                reference: 1
            }),
            InfoEvent::TargetLuminance {
                min: 10_000,
                max: 1
            },
            InfoEvent::TargetPrimaries(CustomPrimaries {
                rx: 680_000,
                ry: 320_000,
                gx: 265_000,
                gy: 690_000,
                bx: 150_000,
                by: 60_000,
                wx: 312_700,
                wy: 329_000
            }),
            InfoEvent::TargetMaxCll(6),
            InfoEvent::TargetMaxFall(7),
        ]
    );
}

#[test]
fn described_primaries_are_told_back() {
    let custom = CustomPrimaries {
        rx: 640_000,
        ry: 360_000,
        gx: 300_000,
        gy: 600_000,
        bx: 150_000,
        by: 60_000,
        wx: 312_700,
        wy: 329_000,
    };
    let mut creator = ParamsCreator::new();
    assert_eq!(
        creator.set_primaries(CustomPrimaries { ry: 360_001, ..custom }),
        Err(CreatorError::InvalidPrimariesNamed)
    );
    assert_eq!(
        creator.set_primaries(CustomPrimaries { wx: -1, ..custom }),
        Err(CreatorError::InvalidPrimariesNamed)
    );
    assert_eq!(
        creator.set_primaries(CustomPrimaries {
            gx: 1_000_000,
            gy: 0,
            ..custom
        }),
        Err(CreatorError::InvalidPrimariesNamed)
    );
    assert_eq!(creator.set_primaries(custom), Ok(()));
    assert_eq!(creator.set_primaries(custom), Err(CreatorError::AlreadySet));
    assert_eq!(creator.set_tf_named(14), Ok(()));
    let description = creator.create().unwrap();
    let Information::Parameters(events) = description.information(1) else {
        panic!("parameters");
    };
    assert_eq!(
        events,
        vec![
            InfoEvent::Primaries(custom),
            InfoEvent::TfNamed(9),
            InfoEvent::TargetPrimaries(custom)
        ]
    );
}

fn profile() -> Vec<u8> {
    let mut bytes = vec![0u8; 132];
    bytes[12..16].copy_from_slice(b"mntr");
    bytes[16..20].copy_from_slice(b"RGB ");
    bytes[36..40].copy_from_slice(b"acsp");
    bytes
}

#[test]
fn profiles_are_checked() {
    let mut bytes = profile();
    assert!(is_profile(&bytes));
    bytes[12..16].copy_from_slice(b"scnr");
    assert!(is_profile(&bytes));
    bytes[12..16].copy_from_slice(b"prtr");
    assert!(!is_profile(&bytes));
    let mut gray = profile();
    gray[16..20].copy_from_slice(b"GRAY");
    assert!(!is_profile(&gray));
    let mut unsigned = profile();
    unsigned[39] = 0;
    assert!(!is_profile(&unsigned));
    let mut short = profile();
    short.pop();
    assert!(!is_profile(&short));
}

#[test]
fn profile_files_are_checked() {
    let mut creator = IccCreator::new();
    assert_eq!(
        creator.check_file(0, 131, Some(1000)),
        Err(CreatorError::BadSize)
    );
    assert_eq!(
        creator.check_file(0, 16 * 1024 * 1024 + 1, None),
        Err(CreatorError::BadSize)
    );
    assert_eq!(creator.check_file(0, 132, None), Err(CreatorError::BadFd));
    assert_eq!(
        creator.check_file(u32::MAX, 132, Some(1000)),
        Err(CreatorError::OutOfFile)
    );
    assert_eq!(creator.check_file(868, 132, Some(1000)), Ok(()));
    assert_eq!(
        creator.check_file(869, 132, Some(1000)),
        Err(CreatorError::OutOfFile)
    );
    assert_eq!(creator.set_icc_file(None), Err(CreatorError::BadFd));
    assert!(matches!(creator.create(), Err(CreatorError::IncompleteSet)));
    assert_eq!(creator.set_icc_file(Some(profile())), Ok(()));
    assert_eq!(
        creator.check_file(868, 132, Some(1000)),
        Err(CreatorError::AlreadySet)
    );
    let description = creator.create().unwrap();
    match description.information(2) {
        Information::Profile(bytes) => assert_eq!(*bytes, profile()),
        other => panic!("{other:?}"),
    }
    creator.set_icc_file(Some(vec![0; 132])).unwrap();
    let failed = creator.create().unwrap();
    assert!(matches!(failed.information(2), Information::NotReady));
}

#[test]
fn surfaces_take_usable_descriptions() {
    let usable = ImageDescription {
        value: ContentColor::Icc(profile()),
        failed: false,
    };
    let failed = ImageDescription {
        value: ContentColor::Icc(Vec::new()),
        failed: true,
    };
    assert_eq!(
        set_image_description(false, Some(&usable), 0).unwrap_err(),
        ColorSurfaceError::Inert
    );
    assert_eq!(
        set_image_description(true, Some(&usable), 2).unwrap_err(),
        ColorSurfaceError::RenderIntent
    );
    assert_eq!(
        set_image_description(true, Some(&failed), 0).unwrap_err(),
        ColorSurfaceError::ImageDescription
    );
    assert_eq!(
        set_image_description(true, None, 1).unwrap_err(),
        ColorSurfaceError::ImageDescription
    );
    match set_image_description(true, Some(&usable), 1) {
        Ok(ContentColor::Icc(bytes)) => assert_eq!(bytes, profile()),
        other => panic!("{other:?}"),
    }
}

#[test]
fn surfaces_have_one_color_object_of_each_kind() {
    let mut surface = SurfaceColor::new();
    assert_eq!(surface.get_surface(4), Ok(()));
    assert_eq!(surface.get_surface(5), Err(SurfaceExists));
    assert_eq!(surface.get_feedback(6), Ok(()));
    assert_eq!(surface.get_feedback(7), Err(SurfaceExists));
    surface.color_management_destroyed(5);
    assert_eq!(surface.color_management, Some(4));
    surface.color_management_destroyed(4);
    surface.color_feedback_destroyed(6);
    assert_eq!(surface.get_surface(8), Ok(()));
    assert_eq!(surface.get_feedback(9), Ok(()));
    surface.unset_image_description();
    assert!(matches!(surface.pending, Some(None)));
    let mut outputs = ColorOutputs::new();
    outputs.add_output(3);
    outputs.add_output(4);
    outputs.destroy_output(3);
    assert_eq!(outputs.outputs, vec![4]);
}
