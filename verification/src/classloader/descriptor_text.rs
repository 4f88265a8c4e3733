//! Method descriptors written out from argument kinds, and the law that decoding such a
//! descriptor gives the kinds back.
use vstd::prelude::*;

use crate::class::{ArgumentKindModel, SimpleArgumentKindModel};
use crate::classloader::signature_parser::{
    descriptor_accepted, descriptor_meaning, descriptor_run, descriptor_start, descriptor_step,
    record_kind, DescriptorPhase, DescriptorState,
};

verus! {

/// The descriptor text of a kind without array dimensions: its letter, or `L`, the class
/// name and `;`.
pub open spec fn simple_kind_text(k: SimpleArgumentKindModel) -> Seq<char> {
    match k {
        SimpleArgumentKindModel::Byte => seq!['B'],
        SimpleArgumentKindModel::Char => seq!['C'],
        SimpleArgumentKindModel::Double => seq!['D'],
        SimpleArgumentKindModel::Float => seq!['F'],
        SimpleArgumentKindModel::Int => seq!['I'],
        SimpleArgumentKindModel::Long => seq!['J'],
        SimpleArgumentKindModel::Short => seq!['S'],
        SimpleArgumentKindModel::Boolean => seq!['Z'],
        SimpleArgumentKindModel::Class(name) => seq!['L'] + name + seq![';'],
    }
}

/// `n` opening brackets.
pub open spec fn brackets(n: nat) -> Seq<char> {
    Seq::new(n, |i: int| '[')
}

/// The descriptor text of a kind: one `[` per array dimension, then the element kind.
pub open spec fn kind_text(k: ArgumentKindModel) -> Seq<char> {
    match k {
        ArgumentKindModel::Simple(s) => simple_kind_text(s),
        ArgumentKindModel::Array { dimensions, kind } => brackets(dimensions as nat)
            + simple_kind_text(kind),
    }
}

/// The descriptor texts of `ks`, one after the other.
pub open spec fn kinds_text(ks: Seq<ArgumentKindModel>) -> Seq<char>
    decreases ks.len(),
{
    if ks.len() == 0 {
        Seq::empty()
    } else {
        kinds_text(ks.drop_last()) + kind_text(ks.last())
    }
}

/// The method descriptor of parameters `ps` and return kind `r` (`V` when there is none).
pub open spec fn descriptor_text(ps: Seq<ArgumentKindModel>, r: Option<ArgumentKindModel>) -> Seq<char> {
    seq!['('] + kinds_text(ps) + seq![')'] + match r {
        Some(k) => kind_text(k),
        None => seq!['V'],
    }
}

/// Whether a kind names a class, alone or as the element of an array.
pub open spec fn class_based(k: ArgumentKindModel) -> bool {
    match k {
        ArgumentKindModel::Simple(s) => s is Class,
        ArgumentKindModel::Array { kind, .. } => kind is Class,
    }
}

/// Whether a kind without dimensions can be written: a class name holds no `;`.
pub open spec fn simple_kind_writable(k: SimpleArgumentKindModel) -> bool {
    k matches SimpleArgumentKindModel::Class(name) ==> !name.contains(';')
}

/// Whether a kind can be written: an array has at least one dimension.
pub open spec fn kind_writable(k: ArgumentKindModel) -> bool {
    match k {
        ArgumentKindModel::Simple(s) => simple_kind_writable(s),
        ArgumentKindModel::Array { dimensions, kind } => dimensions >= 1 && simple_kind_writable(
            kind,
        ),
    }
}

/// Whether parameters `ps` and return kind `r` are decoded back from their descriptor:
/// every kind can be written, no parameter but the last names a class, and a last
/// parameter that names a class comes with no return kind (the decoder reads what follows
/// a class kind as another class name).
pub open spec fn descriptor_writable(ps: Seq<ArgumentKindModel>, r: Option<ArgumentKindModel>) -> bool {
    &&& forall|i: int| 0 <= i < ps.len() ==> kind_writable(#[trigger] ps[i])
    &&& forall|i: int| 0 <= i < ps.len() - 1 ==> !class_based(#[trigger] ps[i])
    &&& r matches Some(k) ==> kind_writable(k)
    &&& ps.len() > 0 && class_based(ps.last()) ==> r is None
}

/// The decoder state after reading `cs` from state `st`; `None` when some character is not
/// allowed.
pub open spec fn descriptor_run_from(st: DescriptorState, cs: Seq<char>) -> Option<DescriptorState>
    decreases cs.len(),
{
    if cs.len() == 0 {
        Some(st)
    } else {
        match descriptor_run_from(st, cs.drop_last()) {
            Some(s) => descriptor_step(s, cs.last()),
            None => None,
        }
    }
}

/// Reading from the start state is what `descriptor_run` does.
proof fn lemma_run_from_start(cs: Seq<char>)
    ensures
        descriptor_run(cs) == descriptor_run_from(descriptor_start(), cs),
    decreases cs.len(),
{
    if cs.len() > 0 {
        lemma_run_from_start(cs.drop_last());
    }
}

/// Reading `a` and then `b` is reading `a + b`.
proof fn lemma_run_from_then(
    st: DescriptorState,
    a: Seq<char>,
    s1: DescriptorState,
    b: Seq<char>,
    s2: DescriptorState,
)
    requires
        descriptor_run_from(st, a) == Some(s1),
        descriptor_run_from(s1, b) == Some(s2),
    ensures
        descriptor_run_from(st, a + b) == Some(s2),
    decreases b.len(),
{
    if b.len() == 0 {
        assert(a + b =~= a);
    } else {
        let mid = descriptor_run_from(s1, b.drop_last())->0;
        lemma_run_from_then(st, a, s1, b.drop_last(), mid);
        assert((a + b).drop_last() =~= a + b.drop_last());
        assert((a + b).last() == b.last());
    }
}

/// Reading one character is one step.
proof fn lemma_run_from_char(st: DescriptorState, c: char)
    ensures
        descriptor_run_from(st, seq![c]) == descriptor_step(st, c),
{
    assert(seq![c].drop_last() =~= Seq::<char>::empty());
    assert(descriptor_run_from(st, Seq::<char>::empty()) == Some(st));
}

/// Brackets read in the array phase count dimensions.
proof fn lemma_read_brackets(st: DescriptorState, m: nat)
    requires
        st.phase is Array,
    ensures
        descriptor_run_from(st, brackets(m)) == Some(
            DescriptorState { dimensions: st.dimensions + m, ..st },
        ),
    decreases m,
{
    if m == 0 {
        assert(brackets(0) =~= Seq::<char>::empty());
    } else {
        lemma_read_brackets(st, (m - 1) as nat);
        assert(brackets(m).drop_last() =~= brackets((m - 1) as nat));
        assert(brackets(m).last() == '[');
    }
}

/// The characters of a class name are gathered until a `;`.
proof fn lemma_read_name(st: DescriptorState, name: Seq<char>)
    requires
        st.phase is ClassName,
        !name.contains(';'),
    ensures
        descriptor_run_from(st, name) == Some(
            DescriptorState { class_name: st.class_name + name, ..st },
        ),
    decreases name.len(),
{
    if name.len() == 0 {
        assert(st.class_name + name =~= st.class_name);
    } else {
        let init = name.drop_last();
        assert forall|i: int| 0 <= i < init.len() implies init[i] != ';' by {
            assert(init[i] == name[i]);
        }
        lemma_read_name(st, init);
        assert(name[name.len() - 1] != ';');
        assert((st.class_name + init).push(name.last()) =~= st.class_name + name);
    }
}

/// The kind that a class name read after `dims` brackets stands for.
spec fn class_kind(dims: nat, name: Seq<char>) -> ArgumentKindModel {
    if dims > 0 {
        ArgumentKindModel::Array {
            dimensions: dims as usize,
            kind: SimpleArgumentKindModel::Class(name),
        }
    } else {
        ArgumentKindModel::Simple(SimpleArgumentKindModel::Class(name))
    }
}

/// A class name and its `;` record the class kind; the decoder stays in the class-name phase.
proof fn lemma_read_class(st: DescriptorState, name: Seq<char>)
    requires
        st.phase is ClassName,
        st.class_name == Seq::<char>::empty(),
        !name.contains(';'),
    ensures
        descriptor_run_from(st, name + seq![';']) == Some(
            DescriptorState {
                dimensions: 0,
                class_name: Seq::empty(),
                ..record_kind(st, class_kind(st.dimensions, name))
            },
        ),
{
    lemma_read_name(st, name);
    let s1 = DescriptorState { class_name: st.class_name + name, ..st };
    assert(s1.class_name =~= name);
    lemma_run_from_char(s1, ';');
    lemma_run_from_then(st, name, s1, seq![';'], descriptor_step(s1, ';')->0);
}

/// Reading `L`, a class name and `;`.
proof fn lemma_read_class_text(st: DescriptorState, s1: DescriptorState, name: Seq<char>)
    requires
        descriptor_step(st, 'L') == Some(s1),
        s1.phase is ClassName,
        s1.class_name == Seq::<char>::empty(),
        !name.contains(';'),
    ensures
        descriptor_run_from(st, seq!['L'] + name + seq![';']) == Some(
            DescriptorState {
                dimensions: 0,
                class_name: Seq::empty(),
                ..record_kind(s1, class_kind(s1.dimensions, name))
            },
        ),
{
    lemma_run_from_char(st, 'L');
    lemma_read_class(s1, name);
    let s2 = DescriptorState {
        dimensions: 0,
        class_name: Seq::empty(),
        ..record_kind(s1, class_kind(s1.dimensions, name))
    };
    lemma_run_from_then(st, seq!['L'], s1, name + seq![';'], s2);
    assert(seq!['L'] + name + seq![';'] =~= seq!['L'] + (name + seq![';']));
}

/// After the first `[` of an array kind: the other brackets and the element kind record
/// the array kind.
proof fn lemma_read_array_rest(st: DescriptorState, n: usize, kind: SimpleArgumentKindModel)
    requires
        st.phase is Array,
        st.dimensions == 0,
        st.class_name == Seq::<char>::empty(),
        n >= 1,
        simple_kind_writable(kind),
    ensures
        descriptor_run_from(st, brackets((n - 1) as nat) + simple_kind_text(kind)) == Some(
            DescriptorState {
                phase: if kind is Class {
                    DescriptorPhase::ClassName
                } else {
                    DescriptorPhase::Arguments
                },
                dimensions: 0,
                class_name: Seq::empty(),
                ..record_kind(st, ArgumentKindModel::Array { dimensions: n, kind })
            },
        ),
{
    lemma_read_brackets(st, (n - 1) as nat);
    let s1 = DescriptorState { dimensions: (n - 1) as nat, ..st };
    assert(st.dimensions + (n - 1) as nat == (n - 1) as nat);
    match kind {
        SimpleArgumentKindModel::Class(name) => {
            let s2 = DescriptorState { phase: DescriptorPhase::ClassName, dimensions: n as nat, ..s1 };
            assert(descriptor_step(s1, 'L') == Some(s2));
            lemma_read_class_text(s1, s2, name);
            assert(class_kind(s2.dimensions, name) == ArgumentKindModel::Array { dimensions: n, kind });
            let s3 = DescriptorState {
                dimensions: 0,
                class_name: Seq::empty(),
                ..record_kind(s2, class_kind(s2.dimensions, name))
            };
            lemma_run_from_then(st, brackets((n - 1) as nat), s1, simple_kind_text(kind), s3);
        },
        _ => {
            let letter = simple_kind_text(kind)[0];
            assert(simple_kind_text(kind) == seq![letter]);
            lemma_run_from_char(s1, letter);
            let s2 = descriptor_step(s1, letter)->0;
            lemma_run_from_then(st, brackets((n - 1) as nat), s1, simple_kind_text(kind), s2);
        },
    }
}

/// A state in which the next parameter begins.
spec fn parameter_ready(st: DescriptorState) -> bool {
    &&& st.phase is Arguments
    &&& st.dimensions == 0
    &&& st.class_name == Seq::<char>::empty()
    &&& !st.in_return
}

/// Reading the text of one parameter records it; after a class kind the decoder stays in
/// the class-name phase.
proof fn lemma_read_parameter(st: DescriptorState, k: ArgumentKindModel)
    requires
        parameter_ready(st),
        kind_writable(k),
    ensures
        descriptor_run_from(st, kind_text(k)) == Some(
            DescriptorState {
                phase: if class_based(k) {
                    DescriptorPhase::ClassName
                } else {
                    DescriptorPhase::Arguments
                },
                parameters: st.parameters.push(k),
                ..st
            },
        ),
{
    match k {
        ArgumentKindModel::Simple(s) => match s {
            SimpleArgumentKindModel::Class(name) => {
                let s1 = DescriptorState { phase: DescriptorPhase::ClassName, ..st };
                lemma_read_class_text(st, s1, name);
            },
            _ => {
                let letter = simple_kind_text(s)[0];
                assert(simple_kind_text(s) == seq![letter]);
                lemma_run_from_char(st, letter);
            },
        },
        ArgumentKindModel::Array { dimensions, kind } => {
            let s1 = DescriptorState { phase: DescriptorPhase::Array, ..st };
            lemma_run_from_char(st, '[');
            lemma_read_array_rest(s1, dimensions, kind);
            let s2 = descriptor_run_from(s1, brackets((dimensions - 1) as nat) + simple_kind_text(kind))->0;
            lemma_run_from_then(
                st,
                seq!['['],
                s1,
                brackets((dimensions - 1) as nat) + simple_kind_text(kind),
                s2,
            );
            assert(brackets(dimensions as nat) =~= seq!['['] + brackets((dimensions - 1) as nat));
            assert(kind_text(k) =~= seq!['['] + (brackets((dimensions - 1) as nat) + simple_kind_text(kind)));
        },
    }
}

/// Reading the texts of parameters that name no class records them all.
proof fn lemma_read_parameters(st: DescriptorState, ps: Seq<ArgumentKindModel>)
    requires
        parameter_ready(st),
        forall|i: int| 0 <= i < ps.len() ==> kind_writable(#[trigger] ps[i]) && !class_based(ps[i]),
    ensures
        descriptor_run_from(st, kinds_text(ps)) == Some(
            DescriptorState { parameters: st.parameters + ps, ..st },
        ),
    decreases ps.len(),
{
    if ps.len() == 0 {
        assert(st.parameters + ps =~= st.parameters);
        assert(descriptor_run_from(st, Seq::<char>::empty()) == Some(st));
    } else {
        let init = ps.drop_last();
        assert forall|i: int| 0 <= i < init.len() implies kind_writable(#[trigger] init[i])
            && !class_based(init[i]) by {
            assert(init[i] == ps[i]);
        }
        lemma_read_parameters(st, init);
        let s1 = DescriptorState { parameters: st.parameters + init, ..st };
        assert(ps.last() == ps[ps.len() - 1]);
        lemma_read_parameter(s1, ps.last());
        let s2 = DescriptorState { parameters: s1.parameters.push(ps.last()), ..s1 };
        lemma_run_from_then(st, kinds_text(init), s1, kind_text(ps.last()), s2);
        assert(s1.parameters.push(ps.last()) =~= st.parameters + ps);
    }
}

/// Reading the text of a return kind after `)` sets the return kind.
proof fn lemma_read_return(st: DescriptorState, k: ArgumentKindModel)
    requires
        st.phase is ReturnType,
        st.dimensions == 0,
        st.class_name == Seq::<char>::empty(),
        !st.in_return,
        kind_writable(k),
    ensures
        descriptor_run_from(st, kind_text(k)) matches Some(s) && s.parameters == st.parameters
            && s.return_type == Some(k),
{
    match k {
        ArgumentKindModel::Simple(s) => match s {
            SimpleArgumentKindModel::Class(name) => {
                let s1 = DescriptorState {
                    phase: DescriptorPhase::ClassName,
                    in_return: true,
                    ..st
                };
                lemma_read_class_text(st, s1, name);
            },
            _ => {
                let letter = simple_kind_text(s)[0];
                assert(simple_kind_text(s) == seq![letter]);
                lemma_run_from_char(st, letter);
            },
        },
        ArgumentKindModel::Array { dimensions, kind } => {
            let s1 = DescriptorState { phase: DescriptorPhase::Array, in_return: true, ..st };
            lemma_run_from_char(st, '[');
            lemma_read_array_rest(s1, dimensions, kind);
            let s2 = descriptor_run_from(s1, brackets((dimensions - 1) as nat) + simple_kind_text(kind))->0;
            lemma_run_from_then(
                st,
                seq!['['],
                s1,
                brackets((dimensions - 1) as nat) + simple_kind_text(kind),
                s2,
            );
            assert(brackets(dimensions as nat) =~= seq!['['] + brackets((dimensions - 1) as nat));
            assert(kind_text(k) =~= seq!['['] + (brackets((dimensions - 1) as nat) + simple_kind_text(kind)));
        },
    }
}

/// Decoding the descriptor written from parameters `ps` and return kind `r` gives `ps` and
/// `r` back, wherever the decoder can tell them apart: every kind can be written, no
/// parameter but the last names a class, and a last parameter that names a class comes
/// with no return kind.
pub proof fn lemma_descriptor_round_trip(ps: Seq<ArgumentKindModel>, r: Option<ArgumentKindModel>)
    requires
        descriptor_writable(ps, r),
    ensures
        descriptor_accepted(descriptor_text(ps, r)),
        descriptor_meaning(descriptor_text(ps, r)) == (ps, r),
{
    let text = descriptor_text(ps, r);
    let tail = match r {
        Some(k) => kind_text(k),
        None => seq!['V'],
    };
    lemma_run_from_start(text);
    let s0 = descriptor_start();
    let s1 = DescriptorState { phase: DescriptorPhase::Arguments, ..s0 };
    lemma_run_from_char(s0, '(');
    if ps.len() > 0 && class_based(ps.last()) {
        let init = ps.drop_last();
        assert forall|i: int| 0 <= i < init.len() implies kind_writable(#[trigger] init[i])
            && !class_based(init[i]) by {
            assert(init[i] == ps[i]);
        }
        lemma_read_parameters(s1, init);
        let s2 = DescriptorState { parameters: s1.parameters + init, ..s1 };
        assert(ps.last() == ps[ps.len() - 1]);
        lemma_read_parameter(s2, ps.last());
        let s3 = DescriptorState {
            phase: DescriptorPhase::ClassName,
            parameters: s2.parameters.push(ps.last()),
            ..s2
        };
        assert(s3.parameters =~= ps);
        lemma_run_from_then(s1, kinds_text(init), s2, kind_text(ps.last()), s3);
        lemma_run_from_then(s0, seq!['('], s1, kinds_text(ps), s3);
        lemma_run_from_char(s3, ')');
        let s4 = descriptor_step(s3, ')')->0;
        lemma_run_from_then(s0, seq!['('] + kinds_text(ps), s3, seq![')'], s4);
        lemma_run_from_char(s4, 'V');
        let s5 = descriptor_step(s4, 'V')->0;
        lemma_run_from_then(s0, seq!['('] + kinds_text(ps) + seq![')'], s4, seq!['V'], s5);
    } else {
        assert forall|i: int| 0 <= i < ps.len() implies kind_writable(#[trigger] ps[i])
            && !class_based(ps[i]) by {
            if i == ps.len() - 1 {
                assert(ps.last() == ps[i]);
            }
        }
        lemma_read_parameters(s1, ps);
        let s2 = DescriptorState { parameters: s1.parameters + ps, ..s1 };
        assert(s2.parameters =~= ps);
        lemma_run_from_then(s0, seq!['('], s1, kinds_text(ps), s2);
        lemma_run_from_char(s2, ')');
        let s3 = DescriptorState { phase: DescriptorPhase::ReturnType, ..s2 };
        lemma_run_from_then(s0, seq!['('] + kinds_text(ps), s2, seq![')'], s3);
        match r {
            Some(k) => {
                lemma_read_return(s3, k);
                let s4 = descriptor_run_from(s3, kind_text(k))->0;
                lemma_run_from_then(s0, seq!['('] + kinds_text(ps) + seq![')'], s3, tail, s4);
            },
            None => {
                lemma_run_from_char(s3, 'V');
                let s4 = descriptor_step(s3, 'V')->0;
                lemma_run_from_then(s0, seq!['('] + kinds_text(ps) + seq![')'], s3, tail, s4);
            },
        }
    }
}

} // verus!
