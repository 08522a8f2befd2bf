use vstd::prelude::*;
use crate::patterns::ExcludePattern;
use crate::schedule::PreferedHours;

verus! {

/// A file-size ceiling, held as a plain number of bytes. The human-readable
/// form it is written in ("2 GiB") is parsed at the configuration edge.
pub struct HumanSize {
    pub bytes: u64,
}

impl HumanSize {
    pub fn new(bytes: u64) -> (r: HumanSize)
        ensures
            r.bytes == bytes,
    {
        HumanSize { bytes }
    }

    pub fn as_bytes(&self) -> (r: u64)
        ensures
            r == self.bytes,
    {
        self.bytes
    }
}

/// What to scan and what to leave out.
pub struct ScanConfig {
    /// Root paths to scan; empty means "use the defaults".
    pub paths: Vec<String>,
    /// Glob patterns; an entry whose full path matches any of them is left out.
    pub excludes: Vec<ExcludePattern>,
    /// Whether entries whose base name starts with a dot are left out.
    pub skip_hidden: bool,
    /// Regular files larger than this are left out.
    pub skip_larger_than: Option<HumanSize>,
    /// How many scan workers to run; `None` means one per processing unit.
    pub concurrency: Option<usize>,
}

impl ScanConfig {
    /// A concurrency override, when set, names at least one worker.
    pub open spec fn wf(&self) -> bool {
        self.concurrency matches Some(c) ==> c >= 1
    }

    /// The built-in defaults: scan everything under the default roots.
    pub fn new() -> (r: ScanConfig)
        ensures
            r.wf(),
            r.paths@.len() == 0,
            r.excludes@.len() == 0,
            !r.skip_hidden,
            r.skip_larger_than is None,
            r.concurrency is None,
    {
        ScanConfig {
            paths: Vec::new(),
            excludes: Vec::new(),
            skip_hidden: false,
            skip_larger_than: None,
            concurrency: None,
        }
    }
}

/// Where the signature database lives.
pub struct UpdateConfig {
    pub path: String,
}

/// When scheduled scans may run.
pub struct ScheduleConfig {
    /// A daily window during which scheduled scans are allowed to start.
    pub preferred_hours: Option<PreferedHours>,
    /// `None` or `"daily"` allows scheduled scans, `"off"` disables them;
    /// anything else is invalid and also skips them.
    pub automatic_scans: Option<String>,
    /// Whether to skip a scheduled scan while every power source reports
    /// the system is discharging.
    pub skip_on_battery: bool,
}

impl ScheduleConfig {
    pub open spec fn wf(&self) -> bool {
        self.preferred_hours matches Some(ph) ==> ph.wf()
    }

    /// The built-in defaults: daily scans at any hour, battery ignored.
    pub fn new() -> (r: ScheduleConfig)
        ensures
            r.wf(),
            r.preferred_hours is None,
            r.automatic_scans is None,
            !r.skip_on_battery,
    {
        ScheduleConfig { preferred_hours: None, automatic_scans: None, skip_on_battery: false }
    }
}

/// The whole configuration, as the configuration file declares it.
pub struct Config {
    pub scan: ScanConfig,
    pub update: UpdateConfig,
    pub schedule: ScheduleConfig,
}

impl Config {
    pub open spec fn wf(&self) -> bool {
        self.scan.wf() && self.schedule.wf()
    }
}

} // verus!
