//! The run's configuration: API credentials by service name, and the library
//! roots to scan. The configuration file itself is read and parsed by the
//! surrounding program; this type carries the parsed values.

use vstd::prelude::*;

verus! {

/// Configuration values. `api_keys` maps a service name to its credential;
/// names are unique, as in the keyed file the values come from.
pub struct Config {
    pub api_keys: Vec<(String, String)>,
    pub paths: Vec<String>,
}

impl Config {
    /// Service names are unique.
    pub open spec fn wf(self) -> bool {
        forall|i: int, j: int|
            0 <= i < j < self.api_keys@.len() ==> self.api_keys@[i].0@ != self.api_keys@[j].0@
    }

    /// True when a credential is configured under `name`.
    pub open spec fn has_key(self, name: Seq<char>) -> bool {
        exists|i: int| 0 <= i < self.api_keys@.len() && self.api_keys@[i].0@ == name
    }

    /// The credential configured under `name` (meaningful only when
    /// `has_key`).
    pub open spec fn spec_api_key(self, name: Seq<char>) -> Seq<char> {
        self.api_keys@[choose|i: int|
            0 <= i < self.api_keys@.len() && self.api_keys@[i].0@ == name].1@
    }

    /// The credential for the service `name`, or `None` when the
    /// configuration has none — a missing credential aborts the run before
    /// any scanning begins.
    #[verifier::loop_isolation(false)]
    pub fn get_api_key(&self, name: &String) -> (r: Option<String>)
        requires
            self.wf(),
        ensures
            r is Some <==> self.has_key(name@),
            r matches Some(v) ==> v@ == self.spec_api_key(name@),
    {
        let n = self.api_keys.len();
        let mut k: usize = 0;
        while k < n
            invariant
                0 <= k <= n,
                forall|i: int| 0 <= i < k ==> self.api_keys@[i].0@ != name@,
            decreases n - k,
        {
            if self.api_keys[k].0 == *name {
                proof {
                    let j = choose|i: int|
                        0 <= i < self.api_keys@.len() && self.api_keys@[i].0@ == name@;
                    if j != k as int {
                        assert(self.api_keys@[j].0@ != self.api_keys@[k as int].0@);
                    }
                }
                return Some(self.api_keys[k].1.clone());
            }
            k += 1;
        }
        proof {
            if self.has_key(name@) {
                let i = choose|i: int|
                    0 <= i < self.api_keys@.len() && self.api_keys@[i].0@ == name@;
                assert(self.api_keys@[i].0@ != name@);
            }
        }
        None
    }
}

} // verus!
