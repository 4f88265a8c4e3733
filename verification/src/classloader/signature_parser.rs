//! Decoding of method descriptors such as `(I[Ljava/lang/String;)V`.
use vstd::prelude::*;

use crate::class::{
    argument_kinds_view, optional_kind_view, ArgumentKind, ArgumentKindModel, SimpleArgumentKind,
    SimpleArgumentKindModel,
};

verus! {

/// Phase of the descriptor decoder.
pub enum DescriptorPhase {
    BeforeArguments,
    Arguments,
    ReturnType,
    /// Reading a class name. The `;` that ends it records the class kind and starts the next
    /// class name: the decoder stays in this phase, so the characters after a class kind are
    /// read as another class name, which only a further `;` records.
    ClassName,
    Array,
}

/// State of the descriptor decoder after reading a prefix of the descriptor.
pub struct DescriptorState {
    pub phase: DescriptorPhase,
    pub parameters: Seq<ArgumentKindModel>,
    pub return_type: Option<ArgumentKindModel>,
    pub dimensions: nat,
    pub class_name: Seq<char>,
    pub in_return: bool,
}

/// The primitive kind that a descriptor character stands for.
pub open spec fn base_kind(c: char) -> Option<SimpleArgumentKindModel> {
    if c == 'B' {
        Some(SimpleArgumentKindModel::Byte)
    } else if c == 'D' {
        Some(SimpleArgumentKindModel::Double)
    } else if c == 'F' {
        Some(SimpleArgumentKindModel::Float)
    } else if c == 'I' {
        Some(SimpleArgumentKindModel::Int)
    } else if c == 'C' {
        Some(SimpleArgumentKindModel::Char)
    } else if c == 'J' {
        Some(SimpleArgumentKindModel::Long)
    } else if c == 'S' {
        Some(SimpleArgumentKindModel::Short)
    } else if c == 'Z' {
        Some(SimpleArgumentKindModel::Boolean)
    } else {
        None
    }
}

/// What a character read at an argument position yields: a primitive kind (if any) and the
/// next phase. `None` for a character that cannot stand there.
pub open spec fn argument_char(c: char) -> Option<(Option<SimpleArgumentKindModel>, DescriptorPhase)> {
    if base_kind(c) is Some {
        Some((base_kind(c), DescriptorPhase::Arguments))
    } else if c == 'L' {
        Some((None, DescriptorPhase::ClassName))
    } else if c == '[' {
        Some((None, DescriptorPhase::Array))
    } else if c == ')' {
        Some((None, DescriptorPhase::ReturnType))
    } else {
        None
    }
}

/// Records a decoded kind either as the next parameter or as the return type.
pub open spec fn record_kind(st: DescriptorState, kind: ArgumentKindModel) -> DescriptorState {
    if st.in_return {
        DescriptorState { return_type: Some(kind), ..st }
    } else {
        DescriptorState { parameters: st.parameters.push(kind), ..st }
    }
}

/// One step of the descriptor decoder; `None` when the character is not allowed.
pub open spec fn descriptor_step(st: DescriptorState, c: char) -> Option<DescriptorState> {
    match st.phase {
        DescriptorPhase::BeforeArguments => {
            if c == '(' {
                Some(DescriptorState { phase: DescriptorPhase::Arguments, ..st })
            } else {
                None
            }
        },
        DescriptorPhase::Arguments => match argument_char(c) {
            Some((kind, phase)) => Some(
                match kind {
                    Some(k) => DescriptorState {
                        phase,
                        parameters: st.parameters.push(ArgumentKindModel::Simple(k)),
                        ..st
                    },
                    None => DescriptorState { phase, ..st },
                },
            ),
            None => None,
        },
        DescriptorPhase::ReturnType => {
            if base_kind(c) is Some {
                Some(
                    DescriptorState {
                        return_type: Some(ArgumentKindModel::Simple(base_kind(c)->0)),
                        ..st
                    },
                )
            } else if c == 'V' {
                Some(DescriptorState { return_type: None, ..st })
            } else if c == 'L' {
                Some(DescriptorState { phase: DescriptorPhase::ClassName, in_return: true, ..st })
            } else if c == '[' {
                Some(DescriptorState { phase: DescriptorPhase::Array, in_return: true, ..st })
            } else {
                None
            }
        },
        DescriptorPhase::ClassName => {
            if c == ';' {
                let kind = SimpleArgumentKindModel::Class(st.class_name);
                let arg = if st.dimensions > 0 {
                    ArgumentKindModel::Array { dimensions: st.dimensions as usize, kind }
                } else {
                    ArgumentKindModel::Simple(kind)
                };
                let done = record_kind(st, arg);
                Some(DescriptorState { dimensions: 0, class_name: Seq::empty(), ..done })
            } else {
                Some(DescriptorState { class_name: st.class_name.push(c), ..st })
            }
        },
        DescriptorPhase::Array => {
            let dims = st.dimensions + 1;
            match argument_char(c) {
                Some((kind, phase)) => Some(
                    match kind {
                        Some(k) => DescriptorState {
                            phase,
                            dimensions: 0,
                            ..record_kind(
                                st,
                                ArgumentKindModel::Array { dimensions: dims as usize, kind: k },
                            )
                        },
                        None => DescriptorState { phase, dimensions: dims, ..st },
                    },
                ),
                None => None,
            }
        },
    }
}

/// The decoder state before any character has been read.
pub open spec fn descriptor_start() -> DescriptorState {
    DescriptorState {
        phase: DescriptorPhase::BeforeArguments,
        parameters: Seq::empty(),
        return_type: None,
        dimensions: 0,
        class_name: Seq::empty(),
        in_return: false,
    }
}

/// The decoder state after reading all of `cs`; `None` when some character is not allowed.
pub open spec fn descriptor_run(cs: Seq<char>) -> Option<DescriptorState>
    decreases cs.len(),
{
    if cs.len() == 0 {
        Some(descriptor_start())
    } else {
        match descriptor_run(cs.drop_last()) {
            Some(st) => descriptor_step(st, cs.last()),
            None => None,
        }
    }
}

/// Whether the decoder accepts every character of `cs`.
pub open spec fn descriptor_accepted(cs: Seq<char>) -> bool {
    descriptor_run(cs) is Some
}

/// The parameters and return type that `cs` describes.
pub open spec fn descriptor_meaning(cs: Seq<char>) -> (Seq<ArgumentKindModel>, Option<ArgumentKindModel>) {
    let st = descriptor_run(cs)->0;
    (st.parameters, st.return_type)
}

/// Every prefix of an accepted descriptor is accepted.
pub proof fn lemma_descriptor_prefix_accepted(cs: Seq<char>, i: int)
    requires
        descriptor_accepted(cs),
        0 <= i <= cs.len(),
    ensures
        descriptor_accepted(cs.take(i)),
    decreases cs.len() - i,
{
    if i < cs.len() {
        lemma_descriptor_prefix_accepted(cs, i + 1);
        assert(cs.take(i + 1).drop_last() =~= cs.take(i));
    } else {
        assert(cs.take(i) =~= cs);
    }
}

enum ArgumentStates {
    BeforeArguments,
    Arguments,
    ReturnType,
    ClassName,
    Array,
}

spec fn phase_of(s: ArgumentStates) -> DescriptorPhase {
    match s {
        ArgumentStates::BeforeArguments => DescriptorPhase::BeforeArguments,
        ArgumentStates::Arguments => DescriptorPhase::Arguments,
        ArgumentStates::ReturnType => DescriptorPhase::ReturnType,
        ArgumentStates::ClassName => DescriptorPhase::ClassName,
        ArgumentStates::Array => DescriptorPhase::Array,
    }
}

spec fn optional_simple_view(k: Option<SimpleArgumentKind>) -> Option<SimpleArgumentKindModel> {
    match k {
        Some(s) => Some(s@),
        None => None,
    }
}

fn match_argument_char(c: char) -> (r: (Option<SimpleArgumentKind>, ArgumentStates))
    requires
        argument_char(c) is Some,
    ensures
        optional_simple_view(r.0) == (argument_char(c)->0).0,
        phase_of(r.1) == (argument_char(c)->0).1,
{
    if c == 'B' {
        (Some(SimpleArgumentKind::Byte), ArgumentStates::Arguments)
    } else if c == 'D' {
        (Some(SimpleArgumentKind::Double), ArgumentStates::Arguments)
    } else if c == 'F' {
        (Some(SimpleArgumentKind::Float), ArgumentStates::Arguments)
    } else if c == 'I' {
        (Some(SimpleArgumentKind::Int), ArgumentStates::Arguments)
    } else if c == 'C' {
        (Some(SimpleArgumentKind::Char), ArgumentStates::Arguments)
    } else if c == 'J' {
        (Some(SimpleArgumentKind::Long), ArgumentStates::Arguments)
    } else if c == 'S' {
        (Some(SimpleArgumentKind::Short), ArgumentStates::Arguments)
    } else if c == 'Z' {
        (Some(SimpleArgumentKind::Boolean), ArgumentStates::Arguments)
    } else if c == 'L' {
        (None, ArgumentStates::ClassName)
    } else if c == '[' {
        (None, ArgumentStates::Array)
    } else {
        (None, ArgumentStates::ReturnType)
    }
}

fn base_kind_of(c: char) -> (r: Option<SimpleArgumentKind>)
    ensures
        optional_simple_view(r) == base_kind(c),
{
    if c == 'B' {
        Some(SimpleArgumentKind::Byte)
    } else if c == 'D' {
        Some(SimpleArgumentKind::Double)
    } else if c == 'F' {
        Some(SimpleArgumentKind::Float)
    } else if c == 'I' {
        Some(SimpleArgumentKind::Int)
    } else if c == 'C' {
        Some(SimpleArgumentKind::Char)
    } else if c == 'J' {
        Some(SimpleArgumentKind::Long)
    } else if c == 'S' {
        Some(SimpleArgumentKind::Short)
    } else if c == 'Z' {
        Some(SimpleArgumentKind::Boolean)
    } else {
        None
    }
}

/// When a prefix of a descriptor is rejected, so is the whole descriptor.
pub proof fn lemma_descriptor_prefix_rejected(cs: Seq<char>, i: int)
    requires
        0 <= i <= cs.len(),
        !descriptor_accepted(cs.take(i)),
    ensures
        !descriptor_accepted(cs),
    decreases cs.len() - i,
{
    if i < cs.len() {
        assert(cs.take(i + 1).drop_last() =~= cs.take(i));
        lemma_descriptor_prefix_rejected(cs, i + 1);
    } else {
        assert(cs.take(i) =~= cs);
    }
}

fn is_argument_char(c: char) -> (r: bool)
    ensures
        r == (argument_char(c) is Some),
{
    c == 'B' || c == 'D' || c == 'F' || c == 'I' || c == 'C' || c == 'J' || c == 'S' || c == 'Z'
        || c == 'L' || c == '[' || c == ')'
}

/// Decodes a method descriptor into its parameter kinds and its return kind
/// (`None` for `void`); `None` when the decoder meets a character that is not allowed.
/// After a class kind (`L...;`, also inside an array kind) the decoder keeps reading class
/// names, so `(Ljava/lang/String;I)V` gives the parameter `String` and no return kind.
pub fn try_parse_method_arguments(descriptor: &str) -> (r: Option<(Vec<ArgumentKind>, Option<ArgumentKind>)>)
    ensures
        r is Some <==> descriptor_accepted(descriptor@),
        r matches Some((params, ret)) ==> argument_kinds_view(params@) == descriptor_meaning(
            descriptor@,
        ).0 && optional_kind_view(ret) == descriptor_meaning(descriptor@).1,
{
    let n = descriptor.unicode_len();
    let ghost cs = descriptor@;
    let mut parameters: Vec<ArgumentKind> = Vec::new();
    let mut state = ArgumentStates::BeforeArguments;
    let mut array_dim_counter: usize = 0;
    let mut name_start: usize = 0;
    let mut return_type: Option<ArgumentKind> = None;
    let mut return_state = false;
    let mut i: usize = 0;
    assert(cs.take(0) =~= Seq::<char>::empty());
    while i < n
        invariant
            n == cs.len(),
            cs == descriptor@,
            i <= n,
            array_dim_counter <= i,
            name_start <= i,
            descriptor_run(cs.take(i as int)) is Some,
            ({
                let st = descriptor_run(cs.take(i as int))->0;
                &&& st.phase == phase_of(state)
                &&& st.parameters == argument_kinds_view(parameters@)
                &&& st.return_type == optional_kind_view(return_type)
                &&& st.dimensions == array_dim_counter
                &&& st.in_return == return_state
                &&& st.class_name == (if state is ClassName {
                    cs.subrange(name_start as int, i as int)
                } else {
                    Seq::empty()
                })
            }),
        decreases n - i,
    {
        proof {
            assert(cs.take(i + 1).drop_last() =~= cs.take(i as int));
            assert(cs.take(i + 1).last() == cs[i as int]);
        }
        let ghost st = descriptor_run(cs.take(i as int))->0;
        let c = descriptor.get_char(i);
        match state {
            ArgumentStates::BeforeArguments => {
                if c != '(' {
                    proof {
                        lemma_descriptor_prefix_rejected(cs, i + 1);
                    }
                    return None;
                }
                state = ArgumentStates::Arguments;
            },
            ArgumentStates::Arguments => {
                if !is_argument_char(c) {
                    proof {
                        lemma_descriptor_prefix_rejected(cs, i + 1);
                    }
                    return None;
                }
                let result = match_argument_char(c);
                state = result.1;
                if let Some(argument) = result.0 {
                    parameters.push(ArgumentKind::Simple(argument));
                    assert(argument_kinds_view(parameters@) =~= st.parameters.push(
                        ArgumentKindModel::Simple(base_kind(c)->0),
                    ));
                }
                if let ArgumentStates::ClassName = state {
                    name_start = i + 1;
                }
            },
            ArgumentStates::ReturnType => {
                if c == 'L' {
                    state = ArgumentStates::ClassName;
                    return_state = true;
                    name_start = i + 1;
                } else if c == '[' {
                    state = ArgumentStates::Array;
                    return_state = true;
                } else if c == 'V' {
                    return_type = None;
                } else {
                    let k = base_kind_of(c);
                    match k {
                        Some(kind) => {
                            return_type = Some(ArgumentKind::Simple(kind));
                        },
                        None => {
                            proof {
                                lemma_descriptor_prefix_rejected(cs, i + 1);
                            }
                            return None;
                        },
                    }
                }
            },
            ArgumentStates::ClassName => {
                if c == ';' {
                    let name = descriptor.substring_char(name_start, i).to_owned();
                    let kind = SimpleArgumentKind::Class(name);
                    let arg = if array_dim_counter > 0 {
                        ArgumentKind::Array { dimensions: array_dim_counter, kind }
                    } else {
                        ArgumentKind::Simple(kind)
                    };
                    if return_state {
                        return_type = Some(arg);
                    } else {
                        let ghost old_params = parameters@;
                        parameters.push(arg);
                        assert(argument_kinds_view(parameters@) =~= argument_kinds_view(
                            old_params,
                        ).push(arg@));
                    }
                    array_dim_counter = 0;
                    name_start = i + 1;
                } else {
                    assert(cs.subrange(name_start as int, i + 1) =~= cs.subrange(
                        name_start as int,
                        i as int,
                    ).push(c));
                }
            },
            ArgumentStates::Array => {
                if !is_argument_char(c) {
                    proof {
                        lemma_descriptor_prefix_rejected(cs, i + 1);
                    }
                    return None;
                }
                array_dim_counter = array_dim_counter + 1;
                let result = match_argument_char(c);
                state = result.1;
                if let Some(argument) = result.0 {
                    let arg = ArgumentKind::Array { dimensions: array_dim_counter, kind: argument };
                    if return_state {
                        return_type = Some(arg);
                    } else {
                        let ghost old_params = parameters@;
                        parameters.push(arg);
                        assert(argument_kinds_view(parameters@) =~= argument_kinds_view(
                            old_params,
                        ).push(arg@));
                    }
                    array_dim_counter = 0;
                }
                if let ArgumentStates::ClassName = state {
                    name_start = i + 1;
                }
            },
        }
        i = i + 1;
    }
    assert(cs.take(n as int) =~= cs);
    Some((parameters, return_type))
}

/// Decodes a method descriptor that the decoder accepts into its parameter kinds and its
/// return kind (`None` for `void`).
pub fn parse_method_arguments(descriptor: &str) -> (r: (Vec<ArgumentKind>, Option<ArgumentKind>))
    requires
        descriptor_accepted(descriptor@),
    ensures
        argument_kinds_view(r.0@) == descriptor_meaning(descriptor@).0,
        optional_kind_view(r.1) == descriptor_meaning(descriptor@).1,
{
    match try_parse_method_arguments(descriptor) {
        Some(r) => r,
        None => (Vec::new(), None),
    }
}

} // verus!
