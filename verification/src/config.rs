//! Configuration model: which applications to watch and how often to poll
//! each. Reading and writing the configuration file is the job of the code
//! around this crate; here the configuration is plain data with a validity
//! predicate.

use vstd::prelude::*;

verus! {

/// Per-application settings: how often to poll, in seconds.
pub struct AppConfig {
    pub interval_secs: u64,
}

/// The whole configuration: one entry per watched application, keyed by the
/// application's display name.
pub struct Config {
    pub apps: Vec<(String, AppConfig)>,
}

impl Config {
    /// Entry names are pairwise distinct and every polling interval is at
    /// least one second.
    pub open spec fn wf(&self) -> bool {
        &&& forall|i: int, j: int|
            0 <= i < j < self.apps@.len() ==> self.apps@[i].0@ != self.apps@[j].0@
        &&& forall|i: int| 0 <= i < self.apps@.len() ==> #[trigger] self.apps@[i].1.interval_secs >= 1
    }

    /// Decide [`Config::wf`]: the check a configuration source runs before
    /// it hands the configuration to the registry.
    pub fn is_valid(&self) -> (b: bool)
        ensures
            b == self.wf(),
    {
        let n = self.apps.len();
        let mut i: usize = 0;
        while i < n
            invariant
                n == self.apps@.len(),
                i <= n,
                forall|x: int|
                    0 <= x < i ==> #[trigger] self.apps@[x].1.interval_secs >= 1,
                forall|x: int, y: int|
                    0 <= x < y < n && x < i ==> self.apps@[x].0@ != self.apps@[y].0@,
            decreases n - i,
        {
            if self.apps[i].1.interval_secs < 1 {
                return false;
            }
            let mut j: usize = i + 1;
            while j < n
                invariant
                    n == self.apps@.len(),
                    i < j <= n,
                    forall|y: int| i < y < j ==> self.apps@[i as int].0@ != self.apps@[y].0@,
                decreases n - j,
            {
                if self.apps[i].0 == self.apps[j].0 {
                    return false;
                }
                j += 1;
            }
            i += 1;
        }
        true
    }
}

impl Default for Config {
    /// The fallback configuration used when no file exists: watch the
    /// application "Things" every two seconds.
    fn default() -> (c: Self)
        ensures
            c.apps@.len() == 1,
            c.apps@[0].0@ == "Things"@,
            c.apps@[0].1.interval_secs == 2,
            c.wf(),
    {
        let mut apps: Vec<(String, AppConfig)> = Vec::new();
        apps.push(("Things".to_owned(), AppConfig { interval_secs: 2 }));
        Config { apps }
    }
}

} // verus!
