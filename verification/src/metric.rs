//! An in-memory counter store keyed by strings: the simpler shared-state
//! companion of the worker pool. Counters are created on first use and move
//! up or down by one; a snapshot and an exact textual rendering are offered.
use vstd::prelude::*;

use crate::text::append_i64;
use crate::text::int_str;
use vstd::pervasive::VecAdditionalExecFns;

verus! {

/// A counter cannot move past the `i64` limits.
#[derive(Debug, Clone, Copy, PartialEq, Eq, Structural)]
pub enum MetricsError {
    CounterOverflow,
}

impl MetricsError {
    /// The exact message of the failure.
    pub open spec fn message_spec(self) -> Seq<char> {
        "Metrics error: counter out of range"@
    }

    /// Renders the failure message.
    pub fn message(&self) -> (s: String)
        ensures
            s@ == self.message_spec(),
    {
        String::from_str("Metrics error: counter out of range")
    }
}

/// `k` is one of the keys.
pub open spec fn has_key(keys: Seq<String>, k: Seq<char>) -> bool {
    exists|i: int| 0 <= i < keys.len() && (#[trigger] keys[i])@ == k
}

/// The position of key `k`; meaningful when the keys are unique and `k` is
/// among them.
pub open spec fn key_at(keys: Seq<String>, k: Seq<char>) -> int {
    choose|i: int| 0 <= i < keys.len() && (#[trigger] keys[i])@ == k
}

/// A counter store: one value per key, keys unique, in order of first use.
#[derive(Debug, Clone)]
pub struct Metrics {
    pub keys: Vec<String>,
    pub vals: Vec<i64>,
}

/// The textual form of one entry: the key in quotes, a colon, the value.
pub open spec fn render_entry(key: Seq<char>, val: int) -> Seq<char> {
    "\""@ + key + "\": "@ + int_str(val)
}

/// The textual form of the first `n` entries, separated by `", "`.
pub open spec fn render_entries(m: Metrics, n: int) -> Seq<char>
    decreases n,
{
    if n <= 0 {
        Seq::<char>::empty()
    } else if n == 1 {
        render_entry(m.keys@[0]@, m.vals@[0] as int)
    } else {
        render_entries(m, n - 1) + ", "@ + render_entry(m.keys@[n - 1]@, m.vals@[n - 1] as int)
    }
}

/// The debug form of the store: its entries in order of first use, wrapped in
/// braces.
pub open spec fn metrics_debug_spec(m: Metrics) -> Seq<char> {
    "{"@ + render_entries(m, m.keys@.len() as int) + "}"@
}

impl Metrics {
    /// One value per key and the keys are unique.
    pub open spec fn wf(self) -> bool {
        &&& self.keys@.len() == self.vals@.len()
        &&& forall|i: int, j: int|
            0 <= i < j < self.keys@.len() ==> (#[trigger] self.keys@[i])@ != (
            #[trigger] self.keys@[j])@
    }

    /// An empty store.
    pub fn new() -> (m: Self)
        ensures
            m.keys@.len() == 0,
            m.vals@.len() == 0,
            m.wf(),
    {
        Metrics { keys: Vec::new(), vals: Vec::new() }
    }

    /// Moves the counter of `key` up by one, creating it at one on first use;
    /// fails exactly when the counter is at the upper limit.
    pub fn inc(&mut self, key: String) -> (r: Result<(), MetricsError>)
        requires
            old(self).wf(),
        ensures
            final(self).wf(),
            r matches Ok(_) <==> !(has_key(old(self).keys@, key@) && old(self).vals@[key_at(
                old(self).keys@,
                key@,
            )] == i64::MAX),
            r matches Err(e) ==> e == MetricsError::CounterOverflow && final(self).keys@ == old(
                self,
            ).keys@ && final(self).vals@ == old(self).vals@,
            r matches Ok(_) ==> (if has_key(old(self).keys@, key@) {
                final(self).keys@ == old(self).keys@ && final(self).vals@ == old(
                    self,
                ).vals@.update(
                    key_at(old(self).keys@, key@),
                    (old(self).vals@[key_at(old(self).keys@, key@)] + 1) as i64,
                )
            } else {
                final(self).keys@ == old(self).keys@.push(key) && final(self).vals@ == old(
                    self,
                ).vals@.push(1)
            }),
    {
        self.step(key, true)
    }

    /// Moves the counter of `key` down by one, creating it at minus one on
    /// first use; fails exactly when the counter is at the lower limit.
    pub fn dec(&mut self, key: String) -> (r: Result<(), MetricsError>)
        requires
            old(self).wf(),
        ensures
            final(self).wf(),
            r matches Ok(_) <==> !(has_key(old(self).keys@, key@) && old(self).vals@[key_at(
                old(self).keys@,
                key@,
            )] == i64::MIN),
            r matches Err(e) ==> e == MetricsError::CounterOverflow && final(self).keys@ == old(
                self,
            ).keys@ && final(self).vals@ == old(self).vals@,
            r matches Ok(_) ==> (if has_key(old(self).keys@, key@) {
                final(self).keys@ == old(self).keys@ && final(self).vals@ == old(
                    self,
                ).vals@.update(
                    key_at(old(self).keys@, key@),
                    (old(self).vals@[key_at(old(self).keys@, key@)] - 1) as i64,
                )
            } else {
                final(self).keys@ == old(self).keys@.push(key) && final(self).vals@ == old(
                    self,
                ).vals@.push(-1i64)
            }),
    {
        self.step(key, false)
    }

    /// Moves the counter of `key` by one in the given direction.
    fn step(&mut self, key: String, up: bool) -> (r: Result<(), MetricsError>)
        requires
            old(self).wf(),
        ensures
            final(self).wf(),
            r matches Ok(_) <==> !(has_key(old(self).keys@, key@) && old(self).vals@[key_at(
                old(self).keys@,
                key@,
            )] == (if up {
                i64::MAX
            } else {
                i64::MIN
            })),
            r matches Err(e) ==> e == MetricsError::CounterOverflow && final(self).keys@ == old(
                self,
            ).keys@ && final(self).vals@ == old(self).vals@,
            r matches Ok(_) ==> (if has_key(old(self).keys@, key@) {
                final(self).keys@ == old(self).keys@ && final(self).vals@ == old(
                    self,
                ).vals@.update(
                    key_at(old(self).keys@, key@),
                    (old(self).vals@[key_at(old(self).keys@, key@)] + (if up {
                        1int
                    } else {
                        -1int
                    })) as i64,
                )
            } else {
                final(self).keys@ == old(self).keys@.push(key) && final(self).vals@ == old(
                    self,
                ).vals@.push(
                    if up {
                        1i64
                    } else {
                        -1i64
                    },
                )
            }),
    {
        let n = self.keys.len();
        let mut i: usize = 0;
        while i < n
            invariant
                self == old(self),
                self.wf(),
                n == self.keys@.len(),
                i <= n,
                forall|u: int| 0 <= u < i ==> (#[trigger] self.keys@[u])@ != key@,
            decreases n - i,
        {
            if self.keys[i] == key {
                proof {
                    assert(has_key(self.keys@, key@));
                    let i2 = key_at(self.keys@, key@);
                    assert(self.keys@[i2]@ == key@);
                    assert(i2 == i);
                }
                let v = self.vals[i];
                if up {
                    if v == i64::MAX {
                        return Err(MetricsError::CounterOverflow);
                    }
                    self.vals.set(i, v + 1);
                } else {
                    if v == i64::MIN {
                        return Err(MetricsError::CounterOverflow);
                    }
                    self.vals.set(i, v - 1);
                }
                return Ok(());
            }
            i = i + 1;
        }
        proof {
            assert(!has_key(self.keys@, key@));
        }
        self.keys.push(key);
        self.vals.push(
            if up {
                1
            } else {
                -1
            },
        );
        proof {
            assert forall|i2: int, j2: int|
                0 <= i2 < j2 < self.keys@.len() implies (#[trigger] self.keys@[i2])@ != (
            #[trigger] self.keys@[j2])@ by {
                if j2 < self.keys@.len() - 1 {
                    assert(old(self).keys@[i2]@ != old(self).keys@[j2]@);
                } else {
                    assert(old(self).keys@[i2]@ != key@);
                }
            };
        }
        Ok(())
    }

    /// A copy of the entries, in order of first use.
    pub fn snapshot(&self) -> (r: Result<Vec<(String, i64)>, MetricsError>)
        requires
            self.wf(),
        ensures
            r matches Ok(v) && v@.len() == self.keys@.len() && forall|i: int|
                0 <= i < self.keys@.len() ==> (#[trigger] v@[i]).0@ == self.keys@[i]@ && v@[i].1
                    == self.vals@[i],
    {
        let mut out: Vec<(String, i64)> = Vec::new();
        let mut i: usize = 0;
        while i < self.keys.len()
            invariant
                self.wf(),
                i <= self.keys@.len(),
                out@.len() == i,
                forall|u: int|
                    0 <= u < i ==> (#[trigger] out@[u]).0@ == self.keys@[u]@ && out@[u].1
                        == self.vals@[u],
            decreases self.keys@.len() - i,
        {
            let k = self.keys[i].clone();
            out.push((k, self.vals[i]));
            i = i + 1;
        }
        Ok(out)
    }

    /// The exact debug rendering: each entry as `"key": value`, entries
    /// separated by `", "`, the whole wrapped in `{ }`.
    pub fn debug(&self) -> (r: Result<String, MetricsError>)
        requires
            self.wf(),
        ensures
            r matches Ok(s) && s@ == metrics_debug_spec(*self),
    {
        let mut s = String::from_str("{");
        let mut i: usize = 0;
        while i < self.keys.len()
            invariant
                self.wf(),
                i <= self.keys@.len(),
                s@ == "{"@ + render_entries(*self, i as int),
            decreases self.keys@.len() - i,
        {
            if i > 0 {
                s.append(", ");
            }
            s.append("\"");
            s.append(self.keys[i].as_str());
            s.append("\": ");
            append_i64(&mut s, self.vals[i]);
            assert(s@ =~= "{"@ + render_entries(*self, i + 1));
            i = i + 1;
        }
        s.append("}");
        assert(s@ =~= metrics_debug_spec(*self));
        Ok(s)
    }
}

impl Default for Metrics {
    /// An empty store.
    fn default() -> (m: Self)
        ensures
            m.keys@.len() == 0,
            m.vals@.len() == 0,
            m.wf(),
    {
        Metrics::new()
    }
}

} // verus!
