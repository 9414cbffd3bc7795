//! Job records and the small value types that the pipeline passes around.

use vstd::prelude::*;

use crate::text::same_text;

verus! {

/// A job taken from the work queue, discriminated by its kind.
#[derive(Debug, Clone)]
pub enum Job {
    Analyze { job_id: String, track_id: String, source_url: String },
    Fix { job_id: String, track_id: String, source_url: String, modules: Vec<String> },
    Master {
        job_id: String,
        track_id: String,
        source_url: String,
        profile: String,
        loudness_target: String,
    },
    AlbumMaster {
        job_id: String,
        project_id: String,
        track_ids: Vec<String>,
        profile: String,
        loudness_target: String,
        normalize_loudness: bool,
    },
    Export { job_id: String, project_id: String, formats: Vec<String>, include_qc: bool },
}

impl Job {
    /// The identifier shared by every kind of job.
    pub open spec fn spec_job_id(&self) -> Seq<char> {
        match self {
            Job::Analyze { job_id, .. } => job_id@,
            Job::Fix { job_id, .. } => job_id@,
            Job::Master { job_id, .. } => job_id@,
            Job::AlbumMaster { job_id, .. } => job_id@,
            Job::Export { job_id, .. } => job_id@,
        }
    }

    pub fn job_id(&self) -> (r: &str)
        ensures
            r@ == self.spec_job_id(),
    {
        match self {
            Job::Analyze { job_id, .. } => job_id.as_str(),
            Job::Fix { job_id, .. } => job_id.as_str(),
            Job::Master { job_id, .. } => job_id.as_str(),
            Job::AlbumMaster { job_id, .. } => job_id.as_str(),
            Job::Export { job_id, .. } => job_id.as_str(),
        }
    }
}


/// The name of each kind of job, as the webhook endpoint that reports it.
pub open spec fn kind_endpoint(job: Job) -> Seq<char> {
    match job {
        Job::Analyze { .. } => "analysis"@,
        Job::Fix { .. } => "fix"@,
        Job::Master { .. } => "master"@,
        Job::AlbumMaster { .. } => "album-master"@,
        Job::Export { .. } => "export"@,
    }
}

impl Job {
    /// The webhook endpoint on which a failure of this job is reported.
    pub fn failure_endpoint(&self) -> (r: &'static str)
        ensures
            r@ == kind_endpoint(*self),
    {
        match self {
            Job::Analyze { .. } => "analysis",
            Job::Fix { .. } => "fix",
            Job::Master { .. } => "master",
            Job::AlbumMaster { .. } => "album-master",
            Job::Export { .. } => "export",
        }
    }
}

impl Job {
    /// Whether this worker processes the job itself; album masters and
    /// exports are handed back to the API.
    pub fn handled_here(&self) -> (r: bool)
        ensures
            r == (self is Analyze || self is Fix || self is Master),
    {
        match self {
            Job::Analyze { .. } => true,
            Job::Fix { .. } => true,
            Job::Master { .. } => true,
            Job::AlbumMaster { .. } => false,
            Job::Export { .. } => false,
        }
    }
}

/// A change that one repair module made, reported to the caller.
#[derive(Debug, Clone)]
pub struct FixChange {
    pub module: String,
    pub description: String,
}

/// The tone and dynamics profile of the mastering chain.
#[derive(Debug, Clone, Copy, PartialEq, Eq, Structural)]
pub enum MasterProfile {
    Balanced,
    Warm,
    Punchy,
    Custom,
}

/// The profile that a lower-case name selects; unknown names select `Balanced`.
pub open spec fn profile_named(l: Seq<char>) -> MasterProfile {
    if l == "warm"@ {
        MasterProfile::Warm
    } else if l == "punchy"@ {
        MasterProfile::Punchy
    } else if l == "custom"@ {
        MasterProfile::Custom
    } else {
        MasterProfile::Balanced
    }
}

/// The loudness that a master is brought to.
#[derive(Debug, Clone, Copy, PartialEq, Eq, Structural)]
pub enum LoudnessTarget {
    Low,
    Medium,
    High,
}

/// The target that a lower-case name selects; unknown names select `Medium`.
pub open spec fn target_named(l: Seq<char>) -> LoudnessTarget {
    if l == "low"@ {
        LoudnessTarget::Low
    } else if l == "high"@ {
        LoudnessTarget::High
    } else {
        LoudnessTarget::Medium
    }
}

/// The integrated loudness of each target, in LUFS.
pub open spec fn target_lufs(t: LoudnessTarget) -> int {
    match t {
        LoudnessTarget::Low => -14,
        LoudnessTarget::Medium => -11,
        LoudnessTarget::High => -8,
    }
}

/// What `str::to_lowercase` gives for a text.
pub uninterp spec fn lower_of(s: Seq<char>) -> Seq<char>;

/// Relies on `str::to_lowercase`: its result depends on the characters alone.
#[verifier::external_body]
fn lowercase(s: &str) -> (r: String)
    ensures
        r@ == lower_of(s@),
{
    s.to_lowercase()
}

impl MasterProfile {
    /// The profile for a name that is already in lower case.
    pub fn from_lower(l: &str) -> (r: MasterProfile)
        ensures
            r == profile_named(l@),
    {
        if same_text(l, "warm") {
            MasterProfile::Warm
        } else if same_text(l, "punchy") {
            MasterProfile::Punchy
        } else if same_text(l, "custom") {
            MasterProfile::Custom
        } else {
            MasterProfile::Balanced
        }
    }

    /// The profile for a name in any case.
    pub fn from_name(s: &str) -> (r: MasterProfile)
        ensures
            r == profile_named(lower_of(s@)),
    {
        let l = lowercase(s);
        MasterProfile::from_lower(l.as_str())
    }
}

impl LoudnessTarget {
    /// The target for a name that is already in lower case.
    pub fn from_lower(l: &str) -> (r: LoudnessTarget)
        ensures
            r == target_named(l@),
    {
        if same_text(l, "low") {
            LoudnessTarget::Low
        } else if same_text(l, "high") {
            LoudnessTarget::High
        } else {
            LoudnessTarget::Medium
        }
    }

    /// The target for a name in any case.
    pub fn from_name(s: &str) -> (r: LoudnessTarget)
        ensures
            r == target_named(lower_of(s@)),
    {
        let l = lowercase(s);
        LoudnessTarget::from_lower(l.as_str())
    }

    /// The integrated loudness of the target, in LUFS.
    pub fn lufs_value(&self) -> (r: i32)
        ensures
            r == target_lufs(*self),
    {
        match self {
            LoudnessTarget::Low => -14,
            LoudnessTarget::Medium => -11,
            LoudnessTarget::High => -8,
        }
    }
}

/// One of the repair modules that a fix job can request.
#[derive(Debug, Clone, Copy, PartialEq, Eq, Structural)]
pub enum FixModule {
    Normalize,
    ClipRepair,
    DeEss,
    NoiseReduction,
    DcOffset,
    SilenceTrim,
}

/// The module that a request name selects, if any.
pub open spec fn module_named(s: Seq<char>) -> Option<FixModule> {
    if s == "normalize"@ {
        Some(FixModule::Normalize)
    } else if s == "clip_repair"@ {
        Some(FixModule::ClipRepair)
    } else if s == "de_ess"@ {
        Some(FixModule::DeEss)
    } else if s == "noise_reduction"@ {
        Some(FixModule::NoiseReduction)
    } else if s == "dc_offset"@ {
        Some(FixModule::DcOffset)
    } else if s == "silence_trim"@ {
        Some(FixModule::SilenceTrim)
    } else {
        None
    }
}

/// The known modules of a request, in request order; unknown names are left out.
pub open spec fn planned_modules(names: Seq<Seq<char>>) -> Seq<FixModule>
    decreases names.len(),
{
    if names.len() == 0 {
        seq![]
    } else {
        let rest = planned_modules(names.drop_last());
        match module_named(names.last()) {
            Some(m) => rest.push(m),
            None => rest,
        }
    }
}

impl FixModule {
    /// The module that a request name selects, if any.
    pub fn from_name(s: &str) -> (r: Option<FixModule>)
        ensures
            r == module_named(s@),
    {
        if same_text(s, "normalize") {
            Some(FixModule::Normalize)
        } else if same_text(s, "clip_repair") {
            Some(FixModule::ClipRepair)
        } else if same_text(s, "de_ess") {
            Some(FixModule::DeEss)
        } else if same_text(s, "noise_reduction") {
            Some(FixModule::NoiseReduction)
        } else if same_text(s, "dc_offset") {
            Some(FixModule::DcOffset)
        } else if same_text(s, "silence_trim") {
            Some(FixModule::SilenceTrim)
        } else {
            None
        }
    }
}

/// The modules that a fix request runs, in order.
pub fn plan_fixes(names: &Vec<String>) -> (r: Vec<FixModule>)
    ensures
        r@ == planned_modules(names@.map_values(|n: String| n@)),
{
    let ghost views = names@.map_values(|n: String| n@);
    let mut r: Vec<FixModule> = Vec::new();
    let mut i: usize = 0;
    while i < names.len()
        invariant
            views == names@.map_values(|n: String| n@),
            0 <= i <= names.len(),
            r@ == planned_modules(views.subrange(0, i as int)),
        decreases names.len() - i,
    {
        let ghost p = views.subrange(0, i as int + 1);
        assert(p.drop_last() =~= views.subrange(0, i as int));
        assert(p.last() == names@[i as int]@);
        match FixModule::from_name(names[i].as_str()) {
            Some(m) => r.push(m),
            None => {},
        }
        i = i + 1;
    }
    assert(views.subrange(0, names.len() as int) =~= views);
    r
}

} // verus!
