//! Scoped critical sections: interrupts are disabled on entry and enabled
//! again on every way out, a fault part-way through included.
use vstd::prelude::*;
use crate::ide::IDERequest;

verus! {

/// One action of the platform, as the drivers sequence them.
#[derive(Clone, Copy, Debug, PartialEq, Eq, Structural)]
pub enum Action {
    DisableInterrupts,
    EnableInterrupts,
    /// A blocking read of a request's sectors into its destination.
    DiskRead(IDERequest),
    /// Report completion of a read at this destination.
    Complete(usize),
}

pub open spec fn is_switch(a: Action) -> bool {
    a == Action::DisableInterrupts || a == Action::EnableInterrupts
}

/// How many of the body's actions run when a fault stops it before action `fault`.
pub open spec fn actions_run(len: nat, fault: Option<usize>) -> nat {
    match fault {
        Some(k) => if (k as nat) < len { k as nat } else { len },
        None => len,
    }
}

/// The actions a critical section performs.
pub open spec fn spec_section(body: Seq<Action>, fault: Option<usize>) -> Seq<Action> {
    seq![Action::DisableInterrupts] + body.take(actions_run(body.len(), fault) as int) + seq![
        Action::EnableInterrupts,
    ]
}

pub open spec fn count_of(s: Seq<Action>, a: Action) -> nat
    decreases s.len(),
{
    if s.len() == 0 {
        0
    } else {
        count_of(s.drop_last(), a) + if s.last() == a { 1nat } else { 0nat }
    }
}

/// The actions of a critical section around `body` when a fault (if any)
/// stops the body before its action `fault`.
pub fn section(body: &Vec<Action>, fault: Option<usize>) -> (r: Vec<Action>)
    ensures
        r@ == spec_section(body@, fault),
{
    let n: usize = match fault {
        Some(k) => if k < body.len() { k } else { body.len() },
        None => body.len(),
    };
    let mut r: Vec<Action> = Vec::new();
    r.push(Action::DisableInterrupts);
    let mut i: usize = 0;
    while i < n
        invariant
            n <= body@.len(),
            n == actions_run(body@.len(), fault),
            i <= n,
            r@ == seq![Action::DisableInterrupts] + body@.take(i as int),
        decreases n - i,
    {
        r.push(body[i]);
        proof {
            assert(body@.take(i + 1) =~= body@.take(i as int).push(body@[i as int]));
        }
        i += 1;
        proof {
            assert(r@ =~= seq![Action::DisableInterrupts] + body@.take(i as int));
        }
    }
    r.push(Action::EnableInterrupts);
    r
}

/// The body of the section in which an IDE `open` reads its sectors: the
/// read, then the completion at the request's destination.
pub fn read_section(request: IDERequest) -> (r: Vec<Action>)
    ensures
        r@ == seq![Action::DiskRead(request), Action::Complete(request.destination)],
{
    let mut r: Vec<Action> = Vec::new();
    r.push(Action::DiskRead(request));
    r.push(Action::Complete(request.destination));
    proof {
        assert(r@ =~= seq![Action::DiskRead(request), Action::Complete(request.destination)]);
    }
    r
}

proof fn lemma_count_concat(a: Seq<Action>, b: Seq<Action>, x: Action)
    ensures
        count_of(a + b, x) == count_of(a, x) + count_of(b, x),
    decreases b.len(),
{
    if b.len() == 0 {
        assert(a + b =~= a);
    } else {
        assert((a + b).drop_last() =~= a + b.drop_last());
        lemma_count_concat(a, b.drop_last(), x);
    }
}

proof fn lemma_count_absent(s: Seq<Action>, x: Action)
    requires
        forall|k: int| 0 <= k < s.len() ==> s[k] != x,
    ensures
        count_of(s, x) == 0,
    decreases s.len(),
{
    if s.len() > 0 {
        lemma_count_absent(s.drop_last(), x);
    }
}

/// Whatever the body and wherever a fault stops it, a section whose body
/// switches no interrupts itself disables them once, first, and enables
/// them once, last.
pub proof fn lemma_section_balanced(body: Seq<Action>, fault: Option<usize>)
    requires
        forall|k: int| 0 <= k < body.len() ==> !is_switch(#[trigger] body[k]),
    ensures
        spec_section(body, fault)[0] == Action::DisableInterrupts,
        spec_section(body, fault).last() == Action::EnableInterrupts,
        count_of(spec_section(body, fault), Action::DisableInterrupts) == 1,
        count_of(spec_section(body, fault), Action::EnableInterrupts) == 1,
{
    let head = seq![Action::DisableInterrupts];
    let mid = body.take(actions_run(body.len(), fault) as int);
    let tail = seq![Action::EnableInterrupts];
    assert(forall|k: int| 0 <= k < mid.len() ==> mid[k] == body[k]);
    lemma_count_absent(mid, Action::DisableInterrupts);
    lemma_count_absent(mid, Action::EnableInterrupts);
    lemma_count_concat(head, mid, Action::DisableInterrupts);
    lemma_count_concat(head + mid, tail, Action::DisableInterrupts);
    lemma_count_concat(head, mid, Action::EnableInterrupts);
    lemma_count_concat(head + mid, tail, Action::EnableInterrupts);
    assert(head.drop_last().len() == 0);
    assert(tail.drop_last().len() == 0);
    assert(count_of(head.drop_last(), Action::DisableInterrupts) == 0);
    assert(count_of(head.drop_last(), Action::EnableInterrupts) == 0);
    assert(count_of(tail.drop_last(), Action::DisableInterrupts) == 0);
    assert(count_of(tail.drop_last(), Action::EnableInterrupts) == 0);
    assert(count_of(head, Action::DisableInterrupts) == 1);
    assert(count_of(head, Action::EnableInterrupts) == 0);
    assert(count_of(tail, Action::DisableInterrupts) == 0);
    assert(count_of(tail, Action::EnableInterrupts) == 1);
}

} // verus!
