//! Linking: branches to a label get their displacement, labels and
//! annotations leave the list, and what remains is laid out as words.

use vstd::prelude::*;

use crate::error::LinkError;
use crate::instruction::{views, Instr, InstrView};
use crate::MAX_STACK_SIZE;

verus! {

/// The address of the instruction with index `k`: the sizes of the
/// instructions before it, added up.
pub open spec fn start_of(code: Seq<InstrView>, k: int) -> int
    decreases k,
{
    if k <= 0 {
        0
    } else {
        start_of(code, k - 1) + code[k - 1].size()
    }
}

/// The number of words that the program takes.
pub open spec fn total_size(code: Seq<InstrView>) -> int {
    start_of(code, code.len() as int)
}

/// The greatest index below `n` at which the label `name` is defined.
pub open spec fn label_before(code: Seq<InstrView>, name: Seq<char>, n: int) -> Option<int>
    decreases n,
{
    if n <= 0 {
        None
    } else if code[n - 1] == InstrView::LABEL(name) {
        Some(n - 1)
    } else {
        label_before(code, name, n - 1)
    }
}

/// The index at which the label `name` is defined. Where it is defined more
/// than once, the last definition counts.
pub open spec fn label_index(code: Seq<InstrView>, name: Seq<char>) -> Option<int> {
    label_before(code, name, code.len() as int)
}

/// The label that a symbolic branch names.
pub open spec fn target_label(i: InstrView) -> Option<Seq<char>> {
    match i {
        InstrView::Bra(s) | InstrView::Brf(s) | InstrView::Brt(s) | InstrView::Bsr(s) => Some(s),
        _ => None,
    }
}

/// The instruction with index `k` is a branch to a label that the program
/// does not define.
pub open spec fn undefined_at(code: Seq<InstrView>, k: int) -> bool {
    target_label(code[k]) matches Some(name) && label_index(code, name) is None
}

/// The least index below `n` of a branch to an undefined label.
pub open spec fn first_undefined_before(code: Seq<InstrView>, n: int) -> Option<int>
    decreases n,
{
    if n <= 0 {
        None
    } else {
        match first_undefined_before(code, n - 1) {
            Some(k) => Some(k),
            None => if undefined_at(code, n - 1) {
                Some(n - 1)
            } else {
                None
            },
        }
    }
}

/// The index of the first branch to an undefined label.
pub open spec fn first_undefined(code: Seq<InstrView>) -> Option<int> {
    first_undefined_before(code, code.len() as int)
}

/// The branch that a symbolic branch becomes, with the displacement `d`.
pub open spec fn with_displacement(i: InstrView, d: i32) -> InstrView {
    match i {
        InstrView::Bra(_) => InstrView::BRA(d),
        InstrView::Brf(_) => InstrView::BRF(d),
        InstrView::Brt(_) => InstrView::BRT(d),
        InstrView::Bsr(_) => InstrView::BSR(d),
        _ => i,
    }
}

/// The displacement of a branch with index `k` to the instruction with index
/// `target`: what must be added to the program counter, which is behind the
/// branch when the branch is carried out, to reach the target.
pub open spec fn displacement(code: Seq<InstrView>, k: int, target: int) -> int {
    start_of(code, target) - start_of(code, k + 1)
}

/// The instruction with index `k` after linking: a branch to a defined label
/// has its displacement, everything else is as it was.
pub open spec fn resolve(code: Seq<InstrView>, k: int) -> InstrView {
    match target_label(code[k]) {
        Some(name) => match label_index(code, name) {
            Some(target) => with_displacement(code[k], displacement(code, k, target) as i32),
            None => code[k],
        },
        None => code[k],
    }
}

/// The program with every branch resolved, labels still in place.
pub open spec fn resolved(code: Seq<InstrView>) -> Seq<InstrView> {
    Seq::new(code.len(), |k: int| resolve(code, k))
}

/// Holds of everything but a label.
pub open spec fn no_label() -> spec_fn(InstrView) -> bool {
    |i: InstrView| !(i is LABEL)
}

/// Holds of everything but an annotation.
pub open spec fn no_annotation() -> spec_fn(InstrView) -> bool {
    |i: InstrView| !(i is ANNOTE)
}

/// The linked program: branches resolved, labels removed, the order kept.
pub open spec fn linked(code: Seq<InstrView>) -> Seq<InstrView> {
    resolved(code).filter(no_label())
}

/// The program without its annotations, the order kept.
pub open spec fn without_annotations(code: Seq<InstrView>) -> Seq<InstrView> {
    code.filter(no_annotation())
}

/// Every instruction of the program is resolved.
pub open spec fn all_resolved(code: Seq<InstrView>) -> bool {
    forall|k: int| 0 <= k < code.len() ==> (#[trigger] code[k]).is_resolved()
}

/// The words of a program: the encodings of its instructions, one after the
/// other.
pub open spec fn image(code: Seq<InstrView>) -> Seq<i32>
    decreases code.len(),
{
    if code.len() == 0 {
        Seq::empty()
    } else {
        image(code.drop_last()) + code.last().encode()
    }
}

/// Addresses do not decrease along the program.
pub proof fn lemma_start_of_monotone(code: Seq<InstrView>, i: int, j: int)
    requires
        i <= j,
    ensures
        0 <= start_of(code, i) <= start_of(code, j),
    decreases j,
{
    if j <= 0 {
    } else if i == j {
        lemma_start_of_monotone(code, i - 1, j - 1);
    } else {
        lemma_start_of_monotone(code, i, j - 1);
    }
}

/// An address depends only on the instructions before it.
pub proof fn lemma_start_of_prefix(a: Seq<InstrView>, b: Seq<InstrView>, k: int)
    requires
        k <= a.len(),
        k <= b.len(),
        forall|j: int| 0 <= j < k ==> a[j].size() == b[j].size(),
    ensures
        start_of(a, k) == start_of(b, k),
    decreases k,
{
    if k > 0 {
        lemma_start_of_prefix(a, b, k - 1);
    }
}

/// A label that is found is a definition of the name, and no later one
/// exists; a label that is not found is defined nowhere below `n`.
pub proof fn lemma_label_before(code: Seq<InstrView>, name: Seq<char>, n: int)
    requires
        n <= code.len(),
    ensures
        match label_before(code, name, n) {
            Some(t) => 0 <= t < n && code[t] == InstrView::LABEL(name) && forall|j: int|
                t < j < n ==> code[j] != InstrView::LABEL(name),
            None => forall|j: int| 0 <= j < n ==> code[j] != InstrView::LABEL(name),
        },
    decreases n,
{
    if n > 0 && code[n - 1] != InstrView::LABEL(name) {
        lemma_label_before(code, name, n - 1);
    }
}

/// The first undefined branch is one, and none comes before it; where there
/// is none, every branch below `n` has its label.
pub proof fn lemma_first_undefined(code: Seq<InstrView>, n: int)
    requires
        n <= code.len(),
    ensures
        match first_undefined_before(code, n) {
            Some(k) => 0 <= k < n && undefined_at(code, k) && forall|j: int|
                0 <= j < k ==> !undefined_at(code, j),
            None => forall|j: int| 0 <= j < n ==> !undefined_at(code, j),
        },
    decreases n,
{
    if n > 0 {
        lemma_first_undefined(code, n - 1);
    }
}

/// The program that is loaded: the linked program without its annotations.
pub open spec fn program(code: Seq<InstrView>) -> Seq<InstrView> {
    without_annotations(linked(code))
}

/// What a filter keeps satisfies the filter and stood in the sequence.
pub proof fn lemma_filter_elements(s: Seq<InstrView>, p: spec_fn(InstrView) -> bool)
    ensures
        forall|j: int|
            0 <= j < s.filter(p).len() ==> p(#[trigger] s.filter(p)[j]) && s.contains(
                s.filter(p)[j],
            ),
    decreases s.len(),
{
    reveal(Seq::filter);
    if s.len() > 0 {
        let d = s.drop_last();
        lemma_filter_elements(d, p);
        assert forall|j: int| 0 <= j < s.filter(p).len() implies p(#[trigger] s.filter(p)[j])
            && s.contains(s.filter(p)[j]) by {
            if j < d.filter(p).len() {
                let x = d.filter(p)[j];
                assert(d.contains(x));
                let w = choose|w: int| 0 <= w < d.len() && d[w] == x;
                assert(s[w] == x);
            } else {
                assert(s[s.len() - 1] == s.last());
            }
        }
    }
}

/// One more instruction at the end adds its size to the size of the program.
pub proof fn lemma_total_size_push(s: Seq<InstrView>, i: InstrView)
    ensures
        total_size(s.push(i)) == total_size(s) + i.size(),
{
    lemma_start_of_prefix(s, s.push(i), s.len() as int);
}

/// A filter that only drops what takes no room keeps the size of the
/// program.
pub proof fn lemma_filter_size(s: Seq<InstrView>, p: spec_fn(InstrView) -> bool)
    requires
        forall|k: int| 0 <= k < s.len() && !p(s[k]) ==> (#[trigger] s[k]).size() == 0,
    ensures
        total_size(s.filter(p)) == total_size(s),
    decreases s.len(),
{
    reveal(Seq::filter);
    if s.len() > 0 {
        let d = s.drop_last();
        lemma_filter_size(d, p);
        assert(s =~= d.push(s.last()));
        lemma_total_size_push(d, s.last());
        if p(s.last()) {
            lemma_total_size_push(d.filter(p), s.last());
        } else {
            assert(s[s.len() - 1].size() == 0);
        }
    }
}

/// Encoded length equals the sum of the instruction sizes: the image of a
/// program of resolved instructions has as many words as the sizes of its
/// instructions add up to.
pub proof fn lemma_image_len(code: Seq<InstrView>)
    requires
        all_resolved(code),
    ensures
        image(code).len() == total_size(code),
    decreases code.len(),
{
    if code.len() > 0 {
        let d = code.drop_last();
        lemma_image_len(d);
        assert(code =~= d.push(code.last()));
        lemma_total_size_push(d, code.last());
        assert(code[code.len() - 1].is_resolved());
    }
}

/// Resolving changes no size, touches nothing but symbolic branches, and
/// leaves no symbolic branch where every label is defined.
pub proof fn lemma_resolved(code: Seq<InstrView>)
    ensures
        resolved(code).len() == code.len(),
        total_size(resolved(code)) == total_size(code),
        forall|k: int|
            0 <= k < code.len() ==> (#[trigger] resolved(code)[k]).size() == code[k].size(),
        forall|k: int|
            0 <= k < code.len() && !code[k].is_symbolic() ==> #[trigger] resolved(code)[k]
                == code[k],
        first_undefined(code) is None ==> forall|k: int|
            0 <= k < code.len() ==> !(#[trigger] resolved(code)[k]).is_symbolic(),
{
    let r = resolved(code);
    assert forall|k: int| 0 <= k < code.len() implies (#[trigger] r[k]).size() == code[k].size()
        && (!code[k].is_symbolic() ==> r[k] == code[k]) by {}
    lemma_start_of_prefix(r, code, code.len() as int);
    if first_undefined(code) is None {
        lemma_first_undefined(code, code.len() as int);
        assert forall|k: int| 0 <= k < code.len() implies !(#[trigger] r[k]).is_symbolic() by {
            assert(!undefined_at(code, k));
        }
    }
}

/// After linking, no label, annotation or symbolic branch remains, and the
/// program has kept its size: where every label is defined, the program that
/// is loaded holds resolved instructions only, takes as many words as the
/// sizes of the instructions as written add up to, and its image has that
/// length.
pub proof fn lemma_program(code: Seq<InstrView>)
    requires
        first_undefined(code) is None,
    ensures
        forall|k: int|
            0 <= k < linked(code).len() ==> !(#[trigger] linked(code)[k]).is_symbolic() && !(
            linked(code)[k] is LABEL),
        all_resolved(program(code)),
        total_size(linked(code)) == total_size(code),
        total_size(program(code)) == total_size(code),
        image(program(code)).len() == total_size(code),
{
    let r = resolved(code);
    let l = linked(code);
    let p = program(code);
    lemma_resolved(code);
    lemma_filter_elements(r, no_label());
    assert forall|k: int| 0 <= k < l.len() implies !(#[trigger] l[k]).is_symbolic() && !(l[k]
        is LABEL) by {
        assert(r.contains(l[k]));
        let w = choose|w: int| 0 <= w < r.len() && r[w] == l[k];
        assert(!r[w].is_symbolic());
        assert(no_label()(l[k]));
    }
    lemma_filter_elements(l, no_annotation());
    assert forall|k: int| 0 <= k < p.len() implies (#[trigger] p[k]).is_resolved() by {
        assert(l.contains(p[k]));
        let w = choose|w: int| 0 <= w < l.len() && l[w] == p[k];
        assert(!l[w].is_symbolic() && !(l[w] is LABEL));
        assert(no_annotation()(p[k]));
    }
    lemma_filter_size(r, no_label());
    lemma_filter_size(l, no_annotation());
    lemma_image_len(p);
}

/// The name that a symbolic branch carries.
fn symbolic_target(i: &Instr) -> (r: Option<&String>)
    ensures
        match r {
            Some(name) => target_label(i@) == Some(name@),
            None => target_label(i@) is None,
        },
{
    match i {
        Instr::Bra(s) | Instr::Brf(s) | Instr::Brt(s) | Instr::Bsr(s) => Some(s),
        _ => None,
    }
}

/// The branch with a displacement that takes the place of a symbolic branch.
fn resolved_branch(i: &Instr, d: i32) -> (r: Instr)
    requires
        i@.is_symbolic(),
    ensures
        r@ == with_displacement(i@, d),
{
    match i {
        Instr::Bra(_) => Instr::BRA(d),
        Instr::Brf(_) => Instr::BRF(d),
        Instr::Brt(_) => Instr::BRT(d),
        _ => Instr::BSR(d),
    }
}

/// Looks a label up: the index of its last definition.
pub fn find_label(code: &Vec<Instr>, name: &String) -> (r: Option<usize>)
    ensures
        match r {
            Some(t) => label_index(views(code@), name@) == Some(t as int),
            None => label_index(views(code@), name@) is None,
        },
{
    let mut k: usize = code.len();
    while k > 0
        invariant
            k <= code@.len(),
            label_index(views(code@), name@) == label_before(views(code@), name@, k as int),
        decreases k,
    {
        match &code[k - 1] {
            Instr::LABEL(n) => {
                if *n == *name {
                    return Some(k - 1);
                }
            },
            _ => {},
        }
        k = k - 1;
    }
    None
}

/// The address of every instruction, and behind them the size of the whole
/// program; `None` where the program has more words than the memory.
pub fn layout(code: &Vec<Instr>) -> (r: Option<Vec<usize>>)
    ensures
        match r {
            Some(starts) => {
                &&& total_size(views(code@)) <= MAX_STACK_SIZE
                &&& starts@.len() == code@.len() + 1
                &&& forall|k: int|
                    0 <= k <= code@.len() ==> #[trigger] starts@[k] == start_of(views(code@), k)
            },
            None => total_size(views(code@)) > MAX_STACK_SIZE,
        },
{
    let mut starts: Vec<usize> = Vec::new();
    let mut at: usize = 0;
    starts.push(0);
    let mut k: usize = 0;
    while k < code.len()
        invariant
            k <= code@.len(),
            at == start_of(views(code@), k as int),
            at <= MAX_STACK_SIZE,
            starts@.len() == k + 1,
            forall|j: int| 0 <= j <= k ==> #[trigger] starts@[j] == start_of(views(code@), j),
        decreases code@.len() - k,
    {
        at = at + code[k].instr_size();
        k = k + 1;
        if at > MAX_STACK_SIZE {
            proof {
                lemma_start_of_monotone(views(code@), k as int, code@.len() as int);
            }
            return None;
        }
        starts.push(at);
    }
    Some(starts)
}

/// Resolves the branches to a label and removes the labels.
///
/// A program of more words than the memory holds is refused, and then a
/// program with a branch to a label that it does not define; the error names
/// the label of the first such branch. A program that is refused is left as
/// it was.
pub fn fix_jumps(code: &mut Vec<Instr>) -> (r: Result<(), LinkError>)
    ensures
        match r {
            Ok(()) => {
                &&& total_size(views(old(code)@)) <= MAX_STACK_SIZE
                &&& first_undefined(views(old(code)@)) is None
                &&& views(final(code)@) == linked(views(old(code)@))
            },
            Err(LinkError::ProgramTooLarge) => {
                &&& total_size(views(old(code)@)) > MAX_STACK_SIZE
                &&& final(code)@ == old(code)@
            },
            Err(LinkError::UndefinedLabel(name)) => {
                &&& total_size(views(old(code)@)) <= MAX_STACK_SIZE
                &&& first_undefined(views(old(code)@)) matches Some(k)
                &&& target_label(views(old(code)@)[k]) == Some(name@)
                &&& final(code)@ == old(code)@
            },
        },
{
    let starts = match layout(code) {
        Some(starts) => starts,
        None => {
            return Err(LinkError::ProgramTooLarge);
        },
    };
    let ghost v = views(code@);
    let mut out: Vec<Instr> = Vec::new();
    let mut k: usize = 0;
    proof {
        reveal(Seq::filter);
        assert(resolved(v).take(0) =~= Seq::<InstrView>::empty());
    }
    while k < code.len()
        invariant
            k <= code@.len(),
            code@ == old(code)@,
            v == views(code@),
            starts@.len() == code@.len() + 1,
            forall|j: int| 0 <= j <= code@.len() ==> #[trigger] starts@[j] == start_of(v, j),
            total_size(v) <= MAX_STACK_SIZE,
            first_undefined_before(v, k as int) is None,
            views(out@) == resolved(v).take(k as int).filter(no_label()),
        decreases code@.len() - k,
    {
        let ghost before = views(out@);
        proof {
            reveal(Seq::filter);
            assert(resolved(v).take(k + 1).drop_last() =~= resolved(v).take(k as int));
            assert(resolved(v).take(k + 1).last() == resolve(v, k as int));
            assert(v[k as int] == code@[k as int]@);
        }
        match symbolic_target(&code[k]) {
            Some(name) => match find_label(code, name) {
                Some(t) => {
                    proof {
                        lemma_label_before(v, name@, v.len() as int);
                        lemma_start_of_monotone(v, t as int, v.len() as int);
                        lemma_start_of_monotone(v, k + 1, v.len() as int);
                        lemma_start_of_monotone(v, 0, t as int);
                        lemma_start_of_monotone(v, 0, k + 1);
                    }
                    let d: i32 = starts[t] as i32 - starts[k + 1] as i32;
                    out.push(resolved_branch(&code[k], d));
                },
                None => {
                    proof {
                        lemma_first_undefined(v, v.len() as int);
                        lemma_first_undefined(v, k as int);
                        assert(undefined_at(v, k as int));
                    }
                    return Err(LinkError::UndefinedLabel(name.clone()));
                },
            },
            None => match &code[k] {
                Instr::LABEL(_) => {},
                other => {
                    out.push(other.copy());
                },
            },
        }
        proof {
            let kept = resolve(v, k as int);
            if no_label()(kept) {
                assert(views(out@) =~= before.push(kept));
            } else {
                assert(views(out@) =~= before);
            }
        }
        k = k + 1;
    }
    proof {
        assert(resolved(v).take(k as int) =~= resolved(v));
    }
    *code = out;
    Ok(())
}

/// Removes the annotations and keeps everything else in its order.
pub fn remove_annote(code: &mut Vec<Instr>)
    ensures
        views(final(code)@) == without_annotations(views(old(code)@)),
{
    let ghost v = views(code@);
    let mut out: Vec<Instr> = Vec::new();
    let mut k: usize = 0;
    proof {
        reveal(Seq::filter);
        assert(v.take(0) =~= Seq::<InstrView>::empty());
    }
    while k < code.len()
        invariant
            k <= code@.len(),
            code@ == old(code)@,
            v == views(code@),
            views(out@) == v.take(k as int).filter(no_annotation()),
        decreases code@.len() - k,
    {
        let ghost before = views(out@);
        proof {
            reveal(Seq::filter);
            assert(v.take(k + 1).drop_last() =~= v.take(k as int));
            assert(v.take(k + 1).last() == code@[k as int]@);
        }
        match &code[k] {
            Instr::ANNOTE(_, _, _, _, _) => {},
            other => {
                out.push(other.copy());
                assert(views(out@) =~= before.push(other@));
            },
        }
        k = k + 1;
    }
    proof {
        assert(v.take(k as int) =~= v);
    }
    *code = out;
}

/// Encodes a program of resolved instructions: the words of each
/// instruction, in the order of the program.
pub fn convert_code(code: &Vec<Instr>) -> (words: Vec<i32>)
    requires
        all_resolved(views(code@)),
    ensures
        words@ == image(views(code@)),
{
    let ghost v = views(code@);
    let mut words: Vec<i32> = Vec::new();
    let mut k: usize = 0;
    proof {
        assert(v.take(0) =~= Seq::<InstrView>::empty());
    }
    while k < code.len()
        invariant
            k <= code@.len(),
            v == views(code@),
            all_resolved(v),
            words@ == image(v.take(k as int)),
        decreases code@.len() - k,
    {
        proof {
            assert(v.take(k + 1).drop_last() =~= v.take(k as int));
            assert(v.take(k + 1).last() == code@[k as int]@);
            assert(v[k as int].is_resolved());
        }
        let mut next = code[k].convert();
        words.append(&mut next);
        k = k + 1;
    }
    proof {
        assert(v.take(k as int) =~= v);
    }
    words
}

} // verus!
