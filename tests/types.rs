use worker_dsp::types::{plan_fixes, FixModule, Job, LoudnessTarget, MasterProfile};

#[test]
fn job_id_of_each_kind() {
    let j = Job::Analyze {
        job_id: "j1".to_string(),
        track_id: "t".to_string(),
        source_url: "s3://a/b".to_string(),
    };
    assert_eq!(j.job_id(), "j1");
    assert_eq!(j.failure_endpoint(), "analysis");
    assert!(j.handled_here());
    let e = Job::Export {
        job_id: "j2".to_string(),
        project_id: "p".to_string(),
        formats: vec![],
        include_qc: true,
    };
    assert_eq!(e.job_id(), "j2");
    assert_eq!(e.failure_endpoint(), "export");
    assert!(!e.handled_here());
    let a = Job::AlbumMaster {
        job_id: "j3".to_string(),
        project_id: "p".to_string(),
        track_ids: vec![],
        profile: "warm".to_string(),
        loudness_target: "low".to_string(),
        normalize_loudness: false,
    };
    assert_eq!(a.failure_endpoint(), "album-master");
}

#[test]
fn profile_names() {
    assert_eq!(MasterProfile::from_name("warm"), MasterProfile::Warm);
    assert_eq!(MasterProfile::from_name("PUNCHY"), MasterProfile::Punchy);
    assert_eq!(MasterProfile::from_name("Custom"), MasterProfile::Custom);
    assert_eq!(MasterProfile::from_name("balanced"), MasterProfile::Balanced);
    assert_eq!(MasterProfile::from_name("loud"), MasterProfile::Balanced);
    assert_eq!(MasterProfile::from_lower("Warm"), MasterProfile::Balanced);
}

#[test]
fn loudness_targets() {
    assert_eq!(LoudnessTarget::from_name("LOW"), LoudnessTarget::Low);
    assert_eq!(LoudnessTarget::from_name("high"), LoudnessTarget::High);
    assert_eq!(LoudnessTarget::from_name("medium"), LoudnessTarget::Medium);
    assert_eq!(LoudnessTarget::from_name("other"), LoudnessTarget::Medium);
    assert_eq!(LoudnessTarget::Low.lufs_value(), -14);
    assert_eq!(LoudnessTarget::Medium.lufs_value(), -11);
    assert_eq!(LoudnessTarget::High.lufs_value(), -8);
}

#[test]
fn fix_plan_keeps_known_modules_in_order() {
    let names: Vec<String> = ["silence_trim", "bogus", "normalize", "clip_repair", "Normalize"]
        .iter()
        .map(|s| s.to_string())
        .collect();
    assert_eq!(
        plan_fixes(&names),
        vec![FixModule::SilenceTrim, FixModule::Normalize, FixModule::ClipRepair]
    );
    assert_eq!(FixModule::from_name("de_ess"), Some(FixModule::DeEss));
    assert_eq!(FixModule::from_name("noise_reduction"), Some(FixModule::NoiseReduction));
    assert_eq!(FixModule::from_name("dc_offset"), Some(FixModule::DcOffset));
    assert_eq!(FixModule::from_name(""), None);
}
