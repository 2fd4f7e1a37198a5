//! The VM pool's bookkeeping: which VMs are ready, handed out, being deleted
//! or being launched, and the decisions each request makes on that state.
//! Waiting and talking to multipass are left to the caller.

use vstd::prelude::*;
use crate::text::{
    after_last, all_digits, decimal, digits_value, is_digit, last_index, lemma_decimal_value,
    lemma_last_index_is, no_duplicates, u64_text, views,
};
use crate::seqs::{first_where, lemma_first_where, lemma_first_where_is};
use crate::workload::str_eq;
use std::collections::VecDeque;

verus! {

/// How many VMs the pool keeps ready or launching.
pub const POOL_SIZE: usize = 1;
pub const VM_PREFIX: &'static str = "billow-pool";
pub const SHUTTING_DOWN_ERROR: &'static str = "vm-pool is shutting down";
pub const WAIT_READY_TIMEOUT_ERROR: &'static str = "timed out waiting for a ready VM";

/// The name of the `id`-th VM that the process `pid` launches at
/// `timestamp`: `billow-pool-<timestamp>-<pid>-<id>`.
pub open spec fn vm_name_spec(timestamp: nat, pid: nat, id: nat) -> Seq<char> {
    VM_PREFIX@ + seq!['-'] + decimal(timestamp) + seq!['-'] + decimal(pid) + seq!['-'] + decimal(
        id,
    )
}

/// The launch number a VM name ends with.
pub open spec fn name_id(name: Seq<char>) -> nat {
    digits_value(after_last(name, '-'))
}

/// A name reads back the launch number it was made with.
pub proof fn lemma_name_id(timestamp: nat, pid: nat, id: nat)
    ensures
        name_id(vm_name_spec(timestamp, pid, id)) == id,
{
    let name = vm_name_spec(timestamp, pid, id);
    let d = decimal(id);
    lemma_decimal_value(id);
    let head = VM_PREFIX@ + seq!['-'] + decimal(timestamp) + seq!['-'] + decimal(pid) + seq!['-'];
    assert(name == head + d);
    let i = head.len() - 1;
    assert(name[i] == '-');
    assert forall|j: int| i < j < name.len() implies name[j] != '-' by {
        assert(name[j] == d[j - head.len()]);
        assert(is_digit(d[j - head.len()]));
    }
    lemma_last_index_is(name, '-', i);
    assert(after_last(name, '-') =~= d);
}

/// `next_vm_name`: the name of the next VM to launch.
pub fn next_vm_name(timestamp: u64, pid: u32, id: u64) -> (name: String)
    ensures
        name@ == vm_name_spec(timestamp as nat, pid as nat, id as nat),
{
    let mut name = String::from_str(VM_PREFIX);
    name.append("-");
    proof {
        reveal_strlit("-");
        assert("-"@ =~= seq!['-']);
    }
    let t = u64_text(timestamp);
    name.append(t.as_str());
    name.append("-");
    let p = u64_text(pid as u64);
    name.append(p.as_str());
    name.append("-");
    let i = u64_text(id);
    name.append(i.as_str());
    name
}

/// The pool's state as sets of names. `taken` and `deleting` hold no order
/// that matters; they are kept as sequences.
pub ghost struct PoolView {
    pub ready: Seq<Seq<char>>,
    pub taken: Seq<Seq<char>>,
    pub deleting: Seq<Seq<char>>,
    pub launching: Option<Seq<char>>,
    pub next_id: nat,
    pub shutdown: bool,
}

pub open spec fn disjoint(a: Seq<Seq<char>>, b: Seq<Seq<char>>) -> bool {
    forall|x: Seq<char>| a.contains(x) ==> !b.contains(x)
}

pub open spec fn is_launching(o: Option<Seq<char>>, x: Seq<char>) -> bool {
    o == Some(x)
}

pub open spec fn known(v: PoolView, x: Seq<char>) -> bool {
    v.ready.contains(x) || v.taken.contains(x) || v.deleting.contains(x) || is_launching(
        v.launching,
        x,
    )
}

/// In how many places the pool holds `x`.
pub open spec fn place_count(v: PoolView, x: Seq<char>) -> int {
    (if v.ready.contains(x) {
        1int
    } else {
        0int
    }) + (if v.taken.contains(x) {
        1int
    } else {
        0int
    }) + (if v.deleting.contains(x) {
        1int
    } else {
        0int
    }) + (if is_launching(v.launching, x) {
        1int
    } else {
        0int
    })
}

/// How many VMs are ready or launching.
pub open spec fn warming(v: PoolView) -> nat {
    v.ready.len() + if v.launching is Some {
        1nat
    } else {
        0nat
    }
}

/// Every VM the pool knows of is in exactly one place, once, and its launch
/// number is at most the last one handed out; no more than `POOL_SIZE` VMs
/// are ready or launching.
pub open spec fn pool_wf(v: PoolView) -> bool {
    &&& warming(v) <= POOL_SIZE
    &&& no_duplicates(v.ready)
    &&& no_duplicates(v.taken)
    &&& no_duplicates(v.deleting)
    &&& forall|x: Seq<char>| #[trigger] known(v, x) ==> place_count(v, x) == 1 && name_id(x)
        <= v.next_id
}

/// The names of all VMs the pool knows of.
pub open spec fn all_names(v: PoolView) -> Seq<Seq<char>> {
    v.ready + v.taken + v.deleting + match v.launching {
        Some(l) => seq![l],
        None => Seq::empty(),
    }
}

pub open spec fn bool_text(b: bool) -> Seq<char> {
    if b {
        "true"@
    } else {
        "false"@
    }
}

proof fn lemma_concat_distinct(a: Seq<Seq<char>>, b: Seq<Seq<char>>)
    requires
        no_duplicates(a),
        no_duplicates(b),
        forall|x: Seq<char>| a.contains(x) ==> !b.contains(x),
    ensures
        no_duplicates(a + b),
        forall|x: Seq<char>| (a + b).contains(x) <==> (a.contains(x) || b.contains(x)),
{
    let c = a + b;
    assert forall|i: int, j: int| 0 <= i < j < c.len() implies c[i] != c[j] by {
        if i < a.len() && j >= a.len() {
            assert(c[i] == a[i]);
            assert(c[j] == b[j - a.len()]);
            assert(a.contains(a[i]));
            assert(b.contains(b[j - a.len()]));
        } else if i >= a.len() {
            assert(c[i] == b[i - a.len()]);
            assert(c[j] == b[j - a.len()]);
        } else {
            assert(c[i] == a[i]);
            assert(c[j] == a[j]);
        }
    }
    assert forall|x: Seq<char>| c.contains(x) <==> (a.contains(x) || b.contains(x)) by {
        if c.contains(x) {
            let k = choose|k: int| 0 <= k < c.len() && c[k] == x;
            if k < a.len() {
                assert(a[k] == x);
            } else {
                assert(b[k - a.len()] == x);
            }
        }
        if a.contains(x) {
            let k = choose|k: int| 0 <= k < a.len() && a[k] == x;
            assert(c[k] == x);
        }
        if b.contains(x) {
            let k = choose|k: int| 0 <= k < b.len() && b[k] == x;
            assert(c[k + a.len()] == x);
        }
    }
}

/// The VMs of a well-formed pool, listed place by place, are all different.
pub proof fn lemma_distinct_places(v: PoolView)
    requires
        pool_wf(v),
    ensures
        no_duplicates(v.ready + v.taken + v.deleting),
        no_duplicates(all_names(v)),
{
    assert forall|x: Seq<char>| v.ready.contains(x) implies !v.taken.contains(x) by {
        assert(known(v, x));
    }
    lemma_concat_distinct(v.ready, v.taken);
    let rt = v.ready + v.taken;
    assert forall|x: Seq<char>| rt.contains(x) implies !v.deleting.contains(x) by {
        assert(known(v, x));
    }
    lemma_concat_distinct(rt, v.deleting);
    let rtd = rt + v.deleting;
    match v.launching {
        Some(l) => {
            let s = seq![l];
            assert(no_duplicates(s));
            assert forall|x: Seq<char>| rtd.contains(x) implies !s.contains(x) by {
                assert(known(v, x));
                if s.contains(x) {
                    assert(s[0] == x);
                }
            }
            lemma_concat_distinct(rtd, s);
            assert(all_names(v) == rtd + s);
        },
        None => {
            assert(all_names(v) =~= rtd);
        },
    }
}

/// Index of `x` in `s` (`s.len()` where it is absent).
pub open spec fn index_in(s: Seq<Seq<char>>, x: Seq<char>) -> int {
    first_where(s, equals(x))
}

pub open spec fn equals(x: Seq<char>) -> spec_fn(Seq<char>) -> bool {
    |y: Seq<char>| y == x
}

/// What a request for a launch slot found.
pub enum Reserve {
    /// The pool is shutting down: the launcher stops.
    ShuttingDown,
    /// The launcher is to launch the VM of this name.
    Launch(String),
    /// Enough VMs are ready or launching: wait for a change.
    Wait,
}

/// What a request for a ready VM found.
pub enum Take {
    ShuttingDown,
    /// This VM is handed out.
    Taken(String),
    /// No VM is ready yet: wait for a change.
    Wait,
}

/// What a wait for a ready VM has come to.
pub enum WaitReady {
    Done(Result<(), String>),
    Wait,
}

/// What the wait for launches and deletions to settle has come to.
#[derive(Clone, Copy, Debug, PartialEq, Eq, Structural)]
pub enum CleanupWait {
    Settled,
    TimedOut,
    Wait,
}

pub struct Pool {
    ready: VecDeque<String>,
    taken: Vec<String>,
    deleting: Vec<String>,
    launching: Option<String>,
    next_id: u64,
    shutdown: bool,
}

impl View for Pool {
    type V = PoolView;

    closed spec fn view(&self) -> PoolView {
        PoolView {
            ready: views(self.ready@),
            taken: views(self.taken@),
            deleting: views(self.deleting@),
            launching: match self.launching {
                Some(l) => Some(l@),
                None => None,
            },
            next_id: self.next_id as nat,
            shutdown: self.shutdown,
        }
    }
}

/// Where `name` stands in `v`, or `None`.
fn position(v: &Vec<String>, name: &str) -> (r: Option<usize>)
    ensures
        match r {
            Some(i) => i < v@.len() && i == index_in(views(v@), name@),
            None => !views(v@).contains(name@) && index_in(views(v@), name@) == v@.len(),
        },
{
    let ghost p = equals(name@);
    let mut i: usize = 0;
    while i < v.len()
        invariant
            i <= v@.len(),
            p == equals(name@),
            forall|j: int| 0 <= j < i ==> !p(#[trigger] views(v@)[j]),
        decreases v.len() - i,
    {
        if str_eq(v[i].as_str(), name) {
            proof {
                assert(views(v@)[i as int] == v@[i as int]@);
                lemma_first_where_is(views(v@), p, i as int);
            }
            return Some(i);
        }
        assert(views(v@)[i as int] == v@[i as int]@);
        i = i + 1;
    }
    proof {
        lemma_first_where_is(views(v@), p, i as int);
        if views(v@).contains(name@) {
            let k = choose|k: int| 0 <= k < views(v@).len() && views(v@)[k] == name@;
            assert(!p(views(v@)[k]));
        }
    }
    None
}

proof fn lemma_views_push(v: Seq<String>, s: String)
    ensures
        views(v.push(s)) == views(v).push(s@),
{
    assert(views(v.push(s)) =~= views(v).push(s@));
}

proof fn lemma_views_remove(v: Seq<String>, i: int)
    requires
        0 <= i < v.len(),
    ensures
        views(v.remove(i)) == views(v).remove(i),
{
    assert(views(v.remove(i)) =~= views(v).remove(i));
}

/// Removing an element keeps the others and loses only it where there are
/// no duplicates.
proof fn lemma_remove_distinct(s: Seq<Seq<char>>, i: int)
    requires
        0 <= i < s.len(),
        no_duplicates(s),
    ensures
        no_duplicates(s.remove(i)),
        forall|x: Seq<char>| s.remove(i).contains(x) <==> (s.contains(x) && x != s[i]),
{
    let r = s.remove(i);
    assert forall|x: Seq<char>| r.contains(x) <==> (s.contains(x) && x != s[i]) by {
        if r.contains(x) {
            let k = choose|k: int| 0 <= k < r.len() && r[k] == x;
            if k < i {
                assert(s[k] == x);
            } else {
                assert(s[k + 1] == x);
            }
        }
        if s.contains(x) && x != s[i] {
            let k = choose|k: int| 0 <= k < s.len() && s[k] == x;
            if k < i {
                assert(r[k] == x);
            } else {
                assert(k != i);
                assert(r[k - 1] == x);
            }
        }
    }
}

proof fn lemma_push_distinct(s: Seq<Seq<char>>, x: Seq<char>)
    requires
        no_duplicates(s),
        !s.contains(x),
    ensures
        no_duplicates(s.push(x)),
        forall|y: Seq<char>| s.push(x).contains(y) <==> (s.contains(y) || y == x),
{
    let r = s.push(x);
    assert forall|y: Seq<char>| r.contains(y) <==> (s.contains(y) || y == x) by {
        if r.contains(y) {
            let k = choose|k: int| 0 <= k < r.len() && r[k] == y;
            if k < s.len() {
                assert(s[k] == y);
            }
        }
        if s.contains(y) {
            let k = choose|k: int| 0 <= k < s.len() && s[k] == y;
            assert(r[k] == y);
        }
        if y == x {
            assert(r[s.len() as int] == y);
        }
    }
    assert forall|i: int, j: int| 0 <= i < j < r.len() implies r[i] != r[j] by {
        if j == s.len() {
            assert(s[i] == r[i]);
            assert(s.contains(r[i]));
        }
    }
}

proof fn lemma_index_in(s: Seq<Seq<char>>, x: Seq<char>)
    requires
        0 <= index_in(s, x) < s.len(),
    ensures
        s[index_in(s, x)] == x,
{
    let p = equals(x);
    lemma_first_where(s, p);
    assert(p(s[index_in(s, x)]));
}

/// Empties `q` into a `Vec`, front first.
fn drain_queue(q: &mut VecDeque<String>) -> (v: Vec<String>)
    ensures
        v@ == old(q)@,
        final(q)@ == Seq::<String>::empty(),
{
    let mut v: Vec<String> = Vec::new();
    loop
        invariant
            v@ + q@ == old(q)@,
        ensures
            v@ == old(q)@,
            q@ == Seq::<String>::empty(),
        decreases q@.len(),
    {
        let ghost before = q@;
        match q.pop_front() {
            Some(x) => {
                v.push(x);
                assert(before =~= seq![x] + q@);
            },
            None => {
                assert(v@ =~= old(q)@);
                break;
            },
        }
    }
    v
}

impl Pool {
    /// An empty pool that is not shutting down.
    pub fn new() -> (p: Pool)
        ensures
            pool_wf(p@),
            p@.ready.len() == 0,
            p@.taken.len() == 0,
            p@.deleting.len() == 0,
            p@.launching is None,
            p@.next_id == 0,
            !p@.shutdown,
    {
        let p = Pool {
            ready: VecDeque::new(),
            taken: Vec::new(),
            deleting: Vec::new(),
            launching: None,
            next_id: 0,
            shutdown: false,
        };
        assert(p@.ready =~= Seq::<Seq<char>>::empty());
        assert(p@.taken =~= Seq::<Seq<char>>::empty());
        assert(p@.deleting =~= Seq::<Seq<char>>::empty());
        p
    }

    pub fn is_shutdown(&self) -> (b: bool)
        ensures
            b == self@.shutdown,
    {
        self.shutdown
    }

    /// Whether another launch number can still be handed out.
    pub fn has_ids_left(&self) -> (b: bool)
        ensures
            b == (self@.next_id < u64::MAX),
    {
        self.next_id < u64::MAX
    }

    /// Marks the pool as shutting down.
    pub fn request_shutdown(&mut self)
        requires
            pool_wf(old(self)@),
        ensures
            pool_wf(final(self)@),
            final(self)@ == (PoolView { shutdown: true, ..old(self)@ }),
    {
        self.shutdown = true;
        proof {
            assert forall|x: Seq<char>| #[trigger] known(self@, x) implies place_count(self@, x)
                == 1 && name_id(x) <= self@.next_id by {
                assert(known(old(self)@, x));
            }
        }
    }

    /// The launcher asks for a slot: while the pool is short of ready and
    /// launching VMs, the next launch number is handed out with the name of
    /// the VM to launch, and that VM counts as launching.
    pub fn reserve_launch_slot(&mut self, timestamp: u64, pid: u32) -> (r: Reserve)
        requires
            pool_wf(old(self)@),
            !old(self)@.shutdown && warming(old(self)@) < POOL_SIZE ==> old(self)@.next_id
                < u64::MAX,
        ensures
            pool_wf(final(self)@),
            old(self)@.shutdown ==> r is ShuttingDown && final(self)@ == old(self)@,
            !old(self)@.shutdown && warming(old(self)@) < POOL_SIZE ==> {
                &&& r matches Reserve::Launch(name)
                &&& name@ == vm_name_spec(timestamp as nat, pid as nat, old(self)@.next_id + 1)
                &&& final(self)@ == (PoolView {
                    launching: Some(name@),
                    next_id: old(self)@.next_id + 1,
                    ..old(self)@
                })
            },
            !old(self)@.shutdown && warming(old(self)@) >= POOL_SIZE ==> r is Wait
                && final(self)@ == old(self)@,
    {
        if self.shutdown {
            return Reserve::ShuttingDown;
        }
        let launching: usize = if self.launching.is_some() {
            1
        } else {
            0
        };
        if self.ready.len() < POOL_SIZE - launching {
            self.next_id = self.next_id + 1;
            let name = next_vm_name(timestamp, pid, self.next_id);
            self.launching = Some(name.clone());
            proof {
                let v = self@;
                let o = old(self)@;
                lemma_name_id(timestamp as nat, pid as nat, v.next_id);
                assert(o.ready.len() == 0);
                assert(!o.taken.contains(name@)) by {
                    if o.taken.contains(name@) {
                        assert(known(o, name@));
                    }
                }
                assert(!o.deleting.contains(name@)) by {
                    if o.deleting.contains(name@) {
                        assert(known(o, name@));
                    }
                }
                assert forall|x: Seq<char>| #[trigger] known(v, x) implies place_count(v, x) == 1
                    && name_id(x) <= v.next_id by {
                    if x != name@ {
                        assert(known(o, x));
                    }
                }
            }
            Reserve::Launch(name)
        } else {
            Reserve::Wait
        }
    }

    /// A launch of `vm_name` has ended: if that VM is still the one
    /// launching, it stops launching and, where it came up, joins the back
    /// of the ready queue.
    pub fn finish_launch(&mut self, vm_name: &str, launched: bool)
        requires
            pool_wf(old(self)@),
        ensures
            pool_wf(final(self)@),
            old(self)@.launching == Some(vm_name@) ==> final(self)@ == (PoolView {
                launching: None,
                ready: if launched {
                    old(self)@.ready.push(vm_name@)
                } else {
                    old(self)@.ready
                },
                ..old(self)@
            }),
            old(self)@.launching != Some(vm_name@) ==> final(self)@ == old(self)@,
    {
        let is_current = match &self.launching {
            Some(l) => str_eq(l.as_str(), vm_name),
            None => false,
        };
        if !is_current {
            return;
        }
        let ghost o = old(self)@;
        self.launching = None;
        if launched {
            let name = String::from_str(vm_name);
            self.ready.push_back(name);
            proof {
                lemma_views_push(old(self).ready@, name);
            }
        }
        proof {
            let v = self@;
            if launched {
                assert(known(o, vm_name@));
                lemma_push_distinct(o.ready, vm_name@);
                assert(v.ready == o.ready.push(vm_name@));
            }
            assert(known(o, vm_name@));
            assert forall|x: Seq<char>| #[trigger] known(v, x) implies place_count(v, x) == 1
                && name_id(x) <= v.next_id by {
                assert(known(o, x));
            }
        }
    }

    /// A client asks for a VM: the front of the ready queue is handed out
    /// and counts as taken.
    pub fn take(&mut self) -> (r: Take)
        requires
            pool_wf(old(self)@),
        ensures
            pool_wf(final(self)@),
            old(self)@.shutdown ==> r is ShuttingDown && final(self)@ == old(self)@,
            !old(self)@.shutdown && old(self)@.ready.len() > 0 ==> {
                &&& r matches Take::Taken(name)
                &&& name@ == old(self)@.ready[0]
                &&& final(self)@ == (PoolView {
                    ready: old(self)@.ready.drop_first(),
                    taken: old(self)@.taken.push(name@),
                    ..old(self)@
                })
            },
            !old(self)@.shutdown && old(self)@.ready.len() == 0 ==> r is Wait && final(self)@
                == old(self)@,
    {
        if self.shutdown {
            return Take::ShuttingDown;
        }
        if self.ready.len() == 0 {
            return Take::Wait;
        }
        let ghost o = old(self)@;
        let name = match self.ready.pop_front() {
            Some(name) => name,
            None => return Take::Wait,
        };
        self.taken.push(name.clone());
        proof {
            assert(old(self).ready@.subrange(1, old(self).ready@.len() as int) =~= old(self).ready@.remove(0));
            lemma_views_remove(old(self).ready@, 0);
            lemma_views_push(old(self).taken@, name);
            let v = self@;
            let x = name@;
            assert(o.ready[0] == x);
            assert(o.ready.remove(0) =~= o.ready.drop_first());
            lemma_remove_distinct(o.ready, 0);
            assert(o.ready.contains(x));
            assert(known(o, x));
            lemma_push_distinct(o.taken, x);
            assert(known(o, x));
            assert forall|y: Seq<char>| #[trigger] known(v, y) implies place_count(v, y) == 1
                && name_id(y) <= v.next_id by {
                assert(known(o, y));
            }
        }
        Take::Taken(name)
    }

    /// A client gives back the VM `vm_name`: it must be one it took; it is
    /// then being deleted.
    pub fn drop_vm(&mut self, vm_name: &str) -> (r: Result<(), String>)
        requires
            pool_wf(old(self)@),
        ensures
            pool_wf(final(self)@),
            old(self)@.taken.contains(vm_name@) ==> r is Ok && final(self)@ == (PoolView {
                taken: old(self)@.taken.remove(index_in(old(self)@.taken, vm_name@)),
                deleting: old(self)@.deleting.push(vm_name@),
                ..old(self)@
            }),
            !old(self)@.taken.contains(vm_name@) ==> r is Err && r->Err_0@ == vm_name@
                + " is not taken by vm-pool"@ && final(self)@ == old(self)@,
    {
        match position(&self.taken, vm_name) {
            None => {
                let mut e = String::from_str(vm_name);
                e.append(" is not taken by vm-pool");
                Err(e)
            },
            Some(i) => {
                let ghost o = old(self)@;
                let name = self.taken.remove(i);
                self.deleting.push(name);
                proof {
                    lemma_index_in(o.taken, vm_name@);
                    lemma_views_remove(old(self).taken@, i as int);
                    lemma_views_push(old(self).deleting@, name);
                    let v = self@;
                    let x = vm_name@;
                    assert(name@ == x);
                    lemma_remove_distinct(o.taken, i as int);
                    assert(o.taken.contains(x)) by {
                        assert(o.taken[i as int] == x);
                    }
                    assert(known(o, x));
                    lemma_push_distinct(o.deleting, x);
                    assert forall|y: Seq<char>| #[trigger] known(v, y) implies place_count(v, y)
                        == 1 && name_id(y) <= v.next_id by {
                        assert(known(o, y));
                        assert(known(o, vm_name@));
                    }
                }
                Ok(())
            },
        }
    }

    /// The deletion of `vm_name` has finished: the pool forgets it.
    pub fn finish_delete(&mut self, vm_name: &str)
        requires
            pool_wf(old(self)@),
        ensures
            pool_wf(final(self)@),
            old(self)@.deleting.contains(vm_name@) ==> final(self)@ == (PoolView {
                deleting: old(self)@.deleting.remove(index_in(old(self)@.deleting, vm_name@)),
                ..old(self)@
            }),
            !old(self)@.deleting.contains(vm_name@) ==> final(self)@ == old(self)@,
    {
        match position(&self.deleting, vm_name) {
            None => {},
            Some(i) => {
                let ghost o = old(self)@;
                let _name = self.deleting.remove(i);
                proof {
                    lemma_index_in(o.deleting, vm_name@);
                    lemma_views_remove(old(self).deleting@, i as int);
                    let v = self@;
                    lemma_remove_distinct(o.deleting, i as int);
                    assert forall|y: Seq<char>| #[trigger] known(v, y) implies place_count(v, y)
                        == 1 && name_id(y) <= v.next_id by {
                        assert(known(o, y));
                        assert(known(o, vm_name@));
                    }
                }
            },
        }
    }

    /// `stop`: the pool shuts down and gives up every VM that is ready,
    /// taken or being deleted, for the caller to destroy. A VM still
    /// launching stays where it is until its launch ends.
    pub fn begin_stop(&mut self) -> (vms: Vec<String>)
        requires
            pool_wf(old(self)@),
        ensures
            pool_wf(final(self)@),
            views(vms@) == old(self)@.ready + old(self)@.taken + old(self)@.deleting,
            no_duplicates(views(vms@)),
            final(self)@ == (PoolView {
                ready: Seq::empty(),
                taken: Seq::empty(),
                deleting: Seq::empty(),
                shutdown: true,
                ..old(self)@
            }),
    {
        let ghost o = old(self)@;
        self.shutdown = true;
        let mut vms: Vec<String> = drain_queue(&mut self.ready);
        vms.append(&mut self.taken);
        vms.append(&mut self.deleting);
        proof {
            assert(views(vms@) =~= o.ready + o.taken + o.deleting);
            lemma_distinct_places(o);
            let v = self@;
            assert(v.ready =~= Seq::<Seq<char>>::empty());
            assert(v.taken =~= Seq::<Seq<char>>::empty());
            assert(v.deleting =~= Seq::<Seq<char>>::empty());
            assert forall|x: Seq<char>| #[trigger] known(v, x) implies place_count(v, x) == 1
                && name_id(x) <= v.next_id by {
                assert(known(o, x));
            }
        }
        vms
    }

    /// `stop` waits for the launching VM and the deletions to settle:
    /// settled once nothing is launching or being deleted; given up once the
    /// deadline has passed.
    pub fn wait_for_cleanup(&self, deadline_passed: bool) -> (r: CleanupWait)
        ensures
            r == (if self@.launching is None && self@.deleting.len() == 0 {
                CleanupWait::Settled
            } else if deadline_passed {
                CleanupWait::TimedOut
            } else {
                CleanupWait::Wait
            }),
    {
        if self.launching.is_none() && self.deleting.len() == 0 {
            CleanupWait::Settled
        } else if deadline_passed {
            CleanupWait::TimedOut
        } else {
            CleanupWait::Wait
        }
    }

    /// Gives up every VM the pool still knows of, the launching one too.
    pub fn drain_known_vms(&mut self) -> (vms: Vec<String>)
        requires
            pool_wf(old(self)@),
        ensures
            pool_wf(final(self)@),
            views(vms@) == all_names(old(self)@),
            no_duplicates(views(vms@)),
            final(self)@ == (PoolView {
                ready: Seq::empty(),
                taken: Seq::empty(),
                deleting: Seq::empty(),
                launching: None,
                ..old(self)@
            }),
    {
        let ghost o = old(self)@;
        let mut vms: Vec<String> = drain_queue(&mut self.ready);
        vms.append(&mut self.taken);
        vms.append(&mut self.deleting);
        let launching = self.launching.take();
        match launching {
            Some(name) => {
                vms.push(name);
            },
            None => {},
        }
        proof {
            assert(views(vms@) =~= all_names(o));
            lemma_distinct_places(o);
            let v = self@;
            assert(v.ready =~= Seq::<Seq<char>>::empty());
            assert(v.taken =~= Seq::<Seq<char>>::empty());
            assert(v.deleting =~= Seq::<Seq<char>>::empty());
            assert forall|x: Seq<char>| #[trigger] known(v, x) implies place_count(v, x) == 1
                && name_id(x) <= v.next_id by {
            }
        }
        vms
    }

    /// `status`: `ready=<n> taken=<n> deleting=<n> launching=<0|1> shutdown=<bool>`.
    pub fn status(&self) -> (s: String)
        ensures
            s@ == "ready="@ + decimal(self@.ready.len()) + " taken="@ + decimal(self@.taken.len())
                + " deleting="@ + decimal(self@.deleting.len()) + " launching="@ + decimal(
                if self@.launching is Some {
                    1nat
                } else {
                    0nat
                },
            ) + " shutdown="@ + bool_text(self@.shutdown),
    {
        let mut s = String::from_str("ready=");
        let n = u64_text(self.ready.len() as u64);
        s.append(n.as_str());
        s.append(" taken=");
        let n = u64_text(self.taken.len() as u64);
        s.append(n.as_str());
        s.append(" deleting=");
        let n = u64_text(self.deleting.len() as u64);
        s.append(n.as_str());
        s.append(" launching=");
        let n = u64_text(
            if self.launching.is_some() {
                1
            } else {
                0
            },
        );
        s.append(n.as_str());
        s.append(" shutdown=");
        if self.shutdown {
            s.append("true");
        } else {
            s.append("false");
        }
        s
    }

    /// `wait-ready`, each time it wakes: refused while shutting down, done
    /// once a VM is ready, refused once the timeout has passed, else waiting
    /// on.
    pub fn wait_ready(&self, timed_out: bool) -> (r: WaitReady)
        ensures
            self@.shutdown ==> (r matches WaitReady::Done(Err(e)) && e@ == SHUTTING_DOWN_ERROR@),
            !self@.shutdown && self@.ready.len() > 0 ==> (r matches WaitReady::Done(Ok(()))),
            !self@.shutdown && self@.ready.len() == 0 && timed_out ==> (r matches WaitReady::Done(
                Err(e),
            ) && e@ == WAIT_READY_TIMEOUT_ERROR@),
            !self@.shutdown && self@.ready.len() == 0 && !timed_out ==> r is Wait,
    {
        if self.shutdown {
            WaitReady::Done(Err(String::from_str(SHUTTING_DOWN_ERROR)))
        } else if self.ready.len() > 0 {
            WaitReady::Done(Ok(()))
        } else if timed_out {
            WaitReady::Done(Err(String::from_str(WAIT_READY_TIMEOUT_ERROR)))
        } else {
            WaitReady::Wait
        }
    }
}

} // verus!
