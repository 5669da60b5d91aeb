//! Shared application state: configuration plus per-endpoint request
//! counters, kept as a small association list with unique keys.

use vstd::prelude::*;
use vstd::string::*;
use crate::core_args::LogLevel;
use crate::utils::str_eq;

verus! {

/// Request counters for one endpoint-and-requester key.
#[derive(Clone, Copy, Debug)]
pub struct CtxRequesterDataPerEndpoint {
    pub endpoint_count_for_ip: u32,
}

impl CtxRequesterDataPerEndpoint {
    /// Count one more request.
    pub fn add_endpoint_count(&mut self)
        requires
            old(self).endpoint_count_for_ip < u32::MAX,
        ensures
            final(self).endpoint_count_for_ip == old(self).endpoint_count_for_ip + 1,
    {
        self.endpoint_count_for_ip = self.endpoint_count_for_ip + 1;
    }
}

/// The service's configuration and counters.
#[derive(Debug)]
pub struct AppState {
    pub dev_mode: bool,
    pub log_level: LogLevel,
    pub app_name: String,
    pub cron_time_secs: u64,
    pub scheduler_time: String,
    pub max_endpoint_count: u64,
    pub counters: Vec<(String, CtxRequesterDataPerEndpoint)>,
}

impl AppState {
    /// The counter keys, in stored order.
    pub open spec fn counter_keys(self) -> Seq<Seq<char>> {
        Seq::new(self.counters@.len() as nat, |i: int| self.counters@[i].0@)
    }

    /// No two counters share a key.
    pub open spec fn wf(self) -> bool {
        forall|i: int, j: int|
            0 <= i < j < self.counter_keys().len() ==> self.counter_keys()[i]
                != self.counter_keys()[j]
    }

    /// Whether a counter exists for the key.
    pub open spec fn has_counter(self, key: Seq<char>) -> bool {
        exists|i: int| 0 <= i < self.counter_keys().len() && self.counter_keys()[i] == key
    }

    /// The position of the key's counter.
    pub open spec fn counter_index(self, key: Seq<char>) -> int {
        choose|i: int| 0 <= i < self.counter_keys().len() && self.counter_keys()[i] == key
    }

    /// The count stored for the key.
    pub open spec fn count_for(self, key: Seq<char>) -> u32 {
        self.counters@[self.counter_index(key)].1.endpoint_count_for_ip
    }

    /// With unique keys, two positions carrying the same key coincide.
    proof fn lemma_key_index_unique(self, a: int, b: int)
        requires
            self.wf(),
            0 <= a < self.counter_keys().len(),
            0 <= b < self.counter_keys().len(),
            self.counter_keys()[a] == self.counter_keys()[b],
        ensures
            a == b,
    {
        if a < b {
            assert(self.counter_keys()[a] != self.counter_keys()[b]);
        }
        if b < a {
            assert(self.counter_keys()[b] != self.counter_keys()[a]);
        }
    }

    /// Count a request against the key: a fresh counter starts at one, an
    /// existing one grows by one. Every other counter stays as it was.
    pub fn update_endpoint_count(&mut self, key: &str)
        requires
            old(self).wf(),
            old(self).has_counter(key@) ==> old(self).count_for(key@) < u32::MAX,
        ensures
            final(self).wf(),
            final(self).has_counter(key@),
            final(self).count_for(key@) == if old(self).has_counter(key@) {
                old(self).count_for(key@) + 1
            } else {
                1int
            },
            forall|k: Seq<char>|
                k != key@ ==> #[trigger] final(self).has_counter(k) == old(self).has_counter(k),
            forall|k: Seq<char>|
                k != key@ && old(self).has_counter(k) ==> #[trigger] final(self).count_for(k)
                    == old(self).count_for(k),
            final(self).dev_mode == old(self).dev_mode,
            final(self).log_level == old(self).log_level,
            final(self).app_name == old(self).app_name,
            final(self).cron_time_secs == old(self).cron_time_secs,
            final(self).scheduler_time == old(self).scheduler_time,
            final(self).max_endpoint_count == old(self).max_endpoint_count,
    {
        let ghost state0 = *old(self);
        let n = self.counters.len();
        let mut i: usize = 0;
        while i < n
            invariant
                0 <= i <= n,
                n == self.counters@.len(),
                *self == state0,
                state0 == *old(self),
                state0.wf(),
                state0.has_counter(key@) ==> state0.count_for(key@) < u32::MAX,
                forall|j: int| 0 <= j < i ==> state0.counter_keys()[j] != key@,
            decreases n - i,
        {
            if str_eq(self.counters[i].0.as_str(), key) {
                proof {
                    assert(state0.wf());
                    assert(state0.counter_keys()[i as int] == key@);
                    assert(state0.has_counter(key@));
                    let w = state0.counter_index(key@);
                    assert(0 <= w < state0.counter_keys().len());
                    assert(state0.counter_keys()[w] == key@);
                    state0.lemma_key_index_unique(w, i as int);
                    assert(state0.count_for(key@) == state0.counters@[i as int].1.endpoint_count_for_ip);
                }
                let mut entry = self.counters.remove(i);
                assert(entry == state0.counters@[i as int]);
                entry.1.add_endpoint_count();
                self.counters.insert(i, entry);
                proof {
                    assert(self.counters@ =~= state0.counters@.update(
                        i as int,
                        (state0.counters@[i as int].0, entry.1),
                    ));
                    assert(self.counter_keys() =~= state0.counter_keys());
                    assert forall|a: int, b: int|
                        0 <= a < b < self.counter_keys().len() implies self.counter_keys()[a]
                        != self.counter_keys()[b] by {
                        assert(self.counter_keys()[a] == state0.counter_keys()[a]);
                        assert(self.counter_keys()[b] == state0.counter_keys()[b]);
                    }
                    assert(self.wf());
                    assert(self.counter_index(key@) == i as int) by {
                        let w = self.counter_index(key@);
                        assert(self.counter_keys()[i as int] == key@);
                        assert(self.has_counter(key@));
                        assert(self.counter_keys()[w] == key@);
                        self.lemma_key_index_unique(w, i as int);
                    }
                    assert forall|k: Seq<char>| k != key@ implies #[trigger] self.has_counter(k)
                        == state0.has_counter(k) by {
                        assert(self.counter_keys() =~= state0.counter_keys());
                    }
                    assert forall|k: Seq<char>|
                        k != key@ && state0.has_counter(k) implies #[trigger] self.count_for(k)
                        == state0.count_for(k) by {
                        let w = self.counter_index(k);
                        let w0 = state0.counter_index(k);
                        assert(state0.counter_keys()[w0] == k);
                        assert(self.has_counter(k));
                        assert(self.counter_keys()[w] == k);
                        self.lemma_key_index_unique(w, w0);
                        assert(w != i as int);
                    }
                }
                return ;
            }
            i += 1;
        }
        proof {
            if state0.has_counter(key@) {
                let w = state0.counter_index(key@);
                assert(state0.counter_keys()[w] == key@);
                assert(false);
            }
        }
        let mut data = CtxRequesterDataPerEndpoint { endpoint_count_for_ip: 0 };
        data.add_endpoint_count();
        self.counters.push((key.to_owned(), data));
        proof {
            assert(self.counter_keys() =~= state0.counter_keys().push(key@));
            assert(self.counter_keys()[n as int] == key@);
            assert(self.has_counter(key@));
            assert forall|a: int, b: int|
                0 <= a < b < self.counter_keys().len() implies self.counter_keys()[a]
                != self.counter_keys()[b] by {
                assert(self.counter_keys()[a] == state0.counter_keys()[a]);
                if b < n {
                    assert(self.counter_keys()[b] == state0.counter_keys()[b]);
                } else {
                    assert(self.counter_keys()[b] == key@);
                }
            }
            assert(self.wf());
            assert(self.counter_index(key@) == n as int) by {
                let w = self.counter_index(key@);
                assert(self.counter_keys()[w] == key@);
                if w != n as int {
                    assert(state0.counter_keys()[w] == key@);
                    assert(false);
                }
            }
            assert forall|k: Seq<char>| k != key@ implies #[trigger] self.has_counter(k)
                == state0.has_counter(k) by {
                if self.has_counter(k) {
                    let w = self.counter_index(k);
                    assert(self.counter_keys()[w] == k);
                    assert(w != n as int);
                    assert(state0.counter_keys()[w] == k);
                } else {
                    if state0.has_counter(k) {
                        let w = state0.counter_index(k);
                        assert(state0.counter_keys()[w] == k);
                        assert(self.counter_keys()[w] == k);
                    }
                }
            }
            assert forall|k: Seq<char>|
                k != key@ && state0.has_counter(k) implies #[trigger] self.count_for(k)
                == state0.count_for(k) by {
                let w0 = state0.counter_index(k);
                assert(state0.counter_keys()[w0] == k);
                assert(self.counter_keys()[w0] == k);
                assert(self.has_counter(k));
                let w = self.counter_index(k);
                assert(self.counter_keys()[w] == k);
                self.lemma_key_index_unique(w, w0);
            }
        }
    }

    /// Read the count stored for a key that has one.
    pub fn get_endpoint_count(&self, key: &str) -> (r: u32)
        requires
            self.wf(),
            self.has_counter(key@),
        ensures
            r == self.count_for(key@),
    {
        let n = self.counters.len();
        let mut i: usize = 0;
        while i < n
            invariant
                0 <= i <= n,
                n == self.counters@.len(),
                self.wf(),
                self.has_counter(key@),
                forall|j: int| 0 <= j < i ==> self.counter_keys()[j] != key@,
            decreases n - i,
        {
            if str_eq(self.counters[i].0.as_str(), key) {
                proof {
                    assert(self.counter_keys()[i as int] == key@);
                    let w = self.counter_index(key@);
                    assert(self.counter_keys()[w] == key@);
                    self.lemma_key_index_unique(w, i as int);
                }
                return self.counters[i].1.endpoint_count_for_ip;
            }
            i += 1;
        }
        proof {
            let w = self.counter_index(key@);
            assert(self.counter_keys()[w] == key@);
            assert(false);
        }
        0
    }
}

} // verus!
