//! What holds of the machine, the linker and the encoder taken together.

use vstd::prelude::*;

use crate::error::RuntimeError;
use crate::instruction::{lemma_decode_encode, InstrView};
use crate::linker::{
    all_resolved, displacement, first_undefined, image, label_index, lemma_filter_size,
    lemma_first_undefined, lemma_image_len, lemma_label_before, lemma_program, lemma_resolved,
    lemma_start_of_monotone, lemma_start_of_prefix, no_annotation, no_label, program, resolve,
    resolved, start_of, target_label, total_size, undefined_at, with_displacement,
};
use crate::machine::{word_add, Machine};
use crate::MAX_STACK_SIZE;

verus! {

/// A push followed by a pop gives back the value pushed and leaves the
/// registers, and every cell but the one above the stack, as they were.
pub proof fn lemma_push_pop(m: Machine, v: i32)
    requires
        m.wf(),
        m.push(v) is Ok,
    ensures
        ({
            let pushed = m.push(v)->Ok_0;
            let (after, popped) = pushed.pop();
            &&& popped == v
            &&& after.wf()
            &&& after.regs == m.regs
            &&& after.output == m.output
            &&& forall|addr: i32|
                addr != word_add(m.regs.sp, 1) ==> after.read(addr) == m.read(addr)
        }),
{
}

/// A comparison and `NOT` leave 0 or -1 on top of the stack.
pub proof fn lemma_truth_values(m: Machine, i: InstrView)
    requires
        m.wf(),
        i is EQ || i is NE || i is LT || i is LE || i is GT || i is GE || i is NOT,
        m.effect(i) is Ok,
    ensures
        ({
            let after = m.effect(i)->Ok_0;
            after.read(after.regs.sp) == 0 || after.read(after.regs.sp) == -1
        }),
{
}

/// The image of two programs, one after the other, is the image of the
/// first followed by the image of the second.
pub proof fn lemma_image_concat(a: Seq<InstrView>, b: Seq<InstrView>)
    ensures
        image(a + b) == image(a) + image(b),
    decreases b.len(),
{
    if b.len() == 0 {
        assert(a + b =~= a);
        assert(image(a) + image(b) =~= image(a));
    } else {
        assert((a + b).drop_last() =~= a + b.drop_last());
        assert((a + b).last() == b.last());
        lemma_image_concat(a, b.drop_last());
        assert(image(a + b) =~= image(a) + image(b));
    }
}

/// The loaded program around the instruction that was written at index
/// `k`: what stands before it takes as many words as the instructions
/// written before index `k`, then comes the instruction itself, resolved.
pub proof fn lemma_program_split(code: Seq<InstrView>, k: int) -> (parts: (
    Seq<InstrView>,
    Seq<InstrView>,
))
    requires
        0 <= k < code.len(),
        !code[k].is_layout(),
    ensures
        program(code) == parts.0.push(resolve(code, k)) + parts.1,
        total_size(parts.0) == start_of(code, k),
{
    let r = resolved(code);
    let head = r.take(k);
    let tail = r.skip(k + 1);
    let one = seq![r[k]];
    lemma_resolved(code);
    assert(r =~= head + one + tail);
    assert(!(r[k] is LABEL) && !(r[k] is ANNOTE));
    assert(one.filter(no_label()) =~= one) by {
        reveal_with_fuel(Seq::filter, 2);
        assert(one.drop_last() =~= Seq::<InstrView>::empty());
    }
    assert(one.filter(no_annotation()) =~= one) by {
        reveal_with_fuel(Seq::filter, 2);
        assert(one.drop_last() =~= Seq::<InstrView>::empty());
    }
    Seq::filter_distributes_over_add(head + one, tail, no_label());
    Seq::filter_distributes_over_add(head, one, no_label());
    let l_head = head.filter(no_label());
    let l_tail = tail.filter(no_label());
    assert(r.filter(no_label()) == l_head + one + l_tail);
    Seq::filter_distributes_over_add(l_head + one, l_tail, no_annotation());
    Seq::filter_distributes_over_add(l_head, one, no_annotation());
    let before = l_head.filter(no_annotation());
    let after = l_tail.filter(no_annotation());
    assert(program(code) == before + one + after);
    assert(before + one =~= before.push(r[k]));
    lemma_filter_size(head, no_label());
    lemma_filter_size(l_head, no_annotation());
    lemma_start_of_prefix(head, r, k);
    lemma_start_of_prefix(r, code, k);
    (before, after)
}

/// Every instruction stands in the image at its address: the words of the
/// image from the address of the instruction written at index `k` on are
/// the encoding of that instruction after linking.
pub proof fn lemma_image_at(code: Seq<InstrView>, k: int)
    requires
        first_undefined(code) is None,
        0 <= k < code.len(),
        !code[k].is_layout(),
    ensures
        resolve(code, k).is_resolved(),
        resolve(code, k).encode().len() == code[k].size(),
        0 <= start_of(code, k),
        start_of(code, k) + code[k].size() <= total_size(code),
        image(program(code)).len() == total_size(code),
        image(program(code)).subrange(start_of(code, k), start_of(code, k) + code[k].size())
            == resolve(code, k).encode(),
{
    let p = program(code);
    let own = resolve(code, k);
    let (before, after) = lemma_program_split(code, k);
    lemma_program(code);
    lemma_resolved(code);
    assert(own == resolved(code)[k]);
    assert(own.is_resolved());
    assert(all_resolved(before)) by {
        assert forall|j: int| 0 <= j < before.len() implies (#[trigger] before[j]).is_resolved(
        ) by {
            assert(p[j] == before[j]);
        }
    }
    lemma_image_len(before);
    lemma_image_concat(before.push(own), after);
    assert(before.push(own).drop_last() =~= before);
    assert(image(before.push(own)) == image(before) + own.encode());
    lemma_start_of_monotone(code, 0, k);
    assert(image(p).subrange(start_of(code, k), start_of(code, k) + code[k].size())
        =~= own.encode());
}

/// The machine finds the program in its memory. Let a program that links
/// be in memory and the program counter stand at the address of an
/// instruction of it. Then that instruction is fetched, resolved as the
/// linker resolved it.
pub proof fn lemma_fetch(code: Seq<InstrView>, k: int, m: Machine)
    requires
        0 <= k < code.len(),
        total_size(code) <= MAX_STACK_SIZE,
        first_undefined(code) is None,
        !code[k].is_layout(),
        m.wf(),
        m.stack.take(total_size(code)) == image(program(code)),
        m.regs.pc == start_of(code, k),
    ensures
        m.fetch() == Ok::<InstrView, RuntimeError>(resolve(code, k)),
        resolve(code, k).is_resolved(),
        resolve(code, k).size() == code[k].size(),
        m.regs.pc + code[k].size() == start_of(code, k + 1),
{
    lemma_image_at(code, k);
    let own = resolve(code, k);
    let at = start_of(code, k);
    let n = code[k].size() as int;
    let img = image(program(code));
    let pc = m.regs.pc;
    let w = seq![m.read(pc), m.read(word_add(pc, 1)), m.read(word_add(pc, 2))];
    let part = img.subrange(at, at + n);
    lemma_decode_encode(own, w.skip(n));
    assert forall|j: int| 0 <= j < n implies w[j] == #[trigger] own.encode()[j] by {
        assert(part[j] == img[at + j]);
        assert(m.stack.take(total_size(code))[at + j] == m.stack[at + j]);
    }
    assert(w =~= own.encode() + w.skip(n));
}

/// What a branch does when it is taken: the machine goes on, and the
/// program counter is the address behind the branch plus the displacement.
pub proof fn lemma_branch_taken(m: Machine, verbosity: u8, i: InstrView, d: i32)
    requires
        m.wf(),
        i == InstrView::BRA(d) || (i == InstrView::BRF(d) && m.read(m.regs.sp) == 0) || (i
            == InstrView::BRT(d) && m.read(m.regs.sp) != 0) || (i == InstrView::BSR(d)
            && word_add(m.regs.sp, 1) >= 0),
    ensures
        m.execute(verbosity, i).1 == Ok::<bool, RuntimeError>(true),
        m.execute(verbosity, i).0.regs.pc == word_add(word_add(m.regs.pc, 2), d),
{
}

/// Where the branch written at index `k` goes: it is resolved into a branch
/// whose displacement, added to the address behind the branch, gives the
/// address of the instruction behind its label.
pub proof fn lemma_branch_target(code: Seq<InstrView>, k: int) -> (d: i32)
    requires
        0 <= k < code.len(),
        total_size(code) <= MAX_STACK_SIZE,
        first_undefined(code) is None,
        code[k].is_symbolic(),
    ensures
        label_index(code, target_label(code[k])->Some_0) is Some,
        resolve(code, k) == with_displacement(code[k], d),
        0 <= start_of(code, k),
        word_add(word_add(start_of(code, k) as i32, 2), d) == start_of(
            code,
            label_index(code, target_label(code[k])->Some_0)->Some_0,
        ),
{
    let name = target_label(code[k])->Some_0;
    lemma_first_undefined(code, code.len() as int);
    assert(!undefined_at(code, k));
    let t = label_index(code, name)->Some_0;
    lemma_label_before(code, name, code.len() as int);
    lemma_start_of_monotone(code, 0, t);
    lemma_start_of_monotone(code, t, code.len() as int);
    lemma_start_of_monotone(code, 0, k + 1);
    lemma_start_of_monotone(code, k + 1, code.len() as int);
    lemma_start_of_monotone(code, 0, k);
    displacement(code, k, t) as i32
}

/// A step executes what it fetches.
pub proof fn lemma_step_executes(m: Machine, verbosity: u8, i: InstrView)
    requires
        m.fetch() == Ok::<InstrView, RuntimeError>(i),
    ensures
        m.step(verbosity) == m.execute(verbosity, i),
{
}

/// A branch lands on its label. Let a program that links be in memory and
/// the program counter stand at a branch to a label; let the branch be
/// taken (the top of the stack zero for `BRF`, not zero for `BRT`) and, for
/// `BSR`, the cell above the stack be one that can be written. Then the next
/// step succeeds and leaves the program counter at the address of the
/// instruction behind the label.
pub proof fn lemma_branch_lands(code: Seq<InstrView>, k: int, m: Machine, verbosity: u8)
    requires
        0 <= k < code.len(),
        total_size(code) <= MAX_STACK_SIZE,
        first_undefined(code) is None,
        code[k].is_symbolic(),
        m.wf(),
        m.stack.take(total_size(code)) == image(program(code)),
        m.regs.pc == start_of(code, k),
        code[k] is Brf ==> m.read(m.regs.sp) == 0,
        code[k] is Brt ==> m.read(m.regs.sp) != 0,
        code[k] is Bsr ==> word_add(m.regs.sp, 1) >= 0,
    ensures
        label_index(code, target_label(code[k])->Some_0) is Some,
        m.step(verbosity).1 == Ok::<bool, RuntimeError>(true),
        m.step(verbosity).0.regs.pc == start_of(
            code,
            label_index(code, target_label(code[k])->Some_0)->Some_0,
        ),
{
    let d = lemma_branch_target(code, k);
    lemma_fetch(code, k, m);
    lemma_branch_taken(m, verbosity, resolve(code, k), d);
    lemma_step_executes(m, verbosity, resolve(code, k));
}

} // verus!
