//! Which names can be written so that they are read back: those that
//! read as one word.

use crate::globals::{StringInterner, Symbol};
use crate::ir::assembly::lexing::is_word;
use crate::ir::assembly::tokens::{check_word_char, is_word_char};
use crate::ir::assembly::{comp_known, function_known};
use crate::ir::comp::{IRComp, IRCompKind, IRCompKindView, IRCompView};
use crate::ir::{IRFunctionView, IRItemFunctionDef, IRValue};
use crate::text::{check_digit, chars_of_str, is_decimal, is_digit};
use vstd::prelude::*;

verus! {

/// Whether the name of the symbol reads as one word.
pub open spec fn is_name(interner: &StringInterner, symbol: Symbol) -> bool {
    is_word(interner.name_of(symbol))
}

/// Whether the name of the symbol can refer to a label: it reads as one
/// word or as a number.
pub open spec fn is_label_name(interner: &StringInterner, symbol: Symbol) -> bool {
    is_word(interner.name_of(symbol)) || is_decimal(interner.name_of(symbol))
}

/// Whether every name in the computation reads as one word, and every
/// reference to a label as a word or a number.
pub open spec fn comp_named(interner: &StringInterner, comp: IRCompView) -> bool {
    &&& comp.id matches Some(id) ==> is_name(interner, id)
    &&& match comp.kind {
        IRCompKindView::FunctionCall { name, args } => is_name(interner, name) && forall|i: int|
            0 <= i < args.len() ==> is_name(interner, (#[trigger] args[i]).id),
        IRCompKindView::BinaryOperation(operation) => is_name(interner, operation.left_operand.id)
            && is_name(interner, operation.right_operand.id),
        IRCompKindView::UnaryOperation(operation) => is_name(interner, operation.operand.id),
        IRCompKindView::Constant(_) => true,
        IRCompKindView::Alloc(_) => true,
        IRCompKindView::Store(_, location, value) => is_name(interner, location.id) && is_name(
            interner,
            value.id,
        ),
        IRCompKindView::Load(_, location) => is_name(interner, location.id),
        IRCompKindView::OffsetStore(_, location, value, _) => is_name(interner, location.id)
            && is_name(interner, value.id),
        IRCompKindView::OffsetLoad(_, location, _) => is_name(interner, location.id),
        IRCompKindView::Return(value) => is_name(interner, value.id),
        IRCompKindView::If(value, label) => is_name(interner, value.id) && is_label_name(
            interner,
            label,
        ),
        IRCompKindView::Jmp(label) => is_label_name(interner, label),
    }
}

/// Whether every name in the function reads as one word, and every
/// reference to a label as a word or a number.
pub open spec fn function_named(interner: &StringInterner, function: IRFunctionView) -> bool {
    &&& is_name(interner, function.name)
    &&& forall|i: int|
        0 <= i < function.params.len() ==> ((#[trigger] function.params[i]).0 matches Some(name)
            ==> is_name(interner, name))
    &&& forall|i: int|
        0 <= i < function.comps.len() ==> comp_named(interner, #[trigger] function.comps[i])
    &&& forall|i: int|
        0 <= i < function.label_defs.len() ==> is_name(
            interner,
            (#[trigger] function.label_defs[i]).0,
        )
}

/// Whether every name in the module reads as one word, and every
/// reference to a label as a word or a number.
pub open spec fn module_named(interner: &StringInterner, functions: Seq<IRFunctionView>) -> bool {
    forall|i: int| 0 <= i < functions.len() ==> function_named(interner, #[trigger] functions[i])
}

} // verus!

verus! {

/// Whether the text reads as one word.
pub fn check_word(text: &str) -> (r: bool)
    ensures
        r == is_word(text@),
{
    let chars = chars_of_str(text);
    if chars.len() == 0 {
        return false;
    }
    if check_digit(chars[0]) {
        return false;
    }
    if chars.len() >= 2 && chars[0] == '-' && chars[1] == '>' {
        return false;
    }
    let mut i: usize = 0;
    while i < chars.len()
        invariant
            i <= chars.len(),
            chars@ == text@,
            forall|k: int| 0 <= k < i ==> is_word_char(#[trigger] chars@[k]),
        decreases chars.len() - i,
    {
        if !check_word_char(chars[i]) {
            return false;
        }
        i = i + 1;
    }
    true
}

/// Whether the text reads as a number.
pub fn check_decimal(text: &str) -> (r: bool)
    ensures
        r == is_decimal(text@),
{
    let chars = chars_of_str(text);
    if chars.len() == 0 {
        return false;
    }
    let mut i: usize = 0;
    while i < chars.len()
        invariant
            i <= chars.len(),
            chars@ == text@,
            forall|k: int| 0 <= k < i ==> is_digit(#[trigger] chars@[k]),
        decreases chars.len() - i,
    {
        if !check_digit(chars[i]) {
            return false;
        }
        i = i + 1;
    }
    true
}

/// Whether the name of a symbol that the interner knows reads as one
/// word.
fn name_reads(interner: &StringInterner, symbol: Symbol) -> (r: bool)
    requires
        interner.wf(),
        interner.knows(symbol),
    ensures
        r == is_name(interner, symbol),
{
    match interner.get(&symbol) {
        Some(name) => check_word(name.as_str()),
        None => false,
    }
}

/// Whether the name of a symbol that the interner knows can refer to a
/// label.
fn label_reads(interner: &StringInterner, symbol: Symbol) -> (r: bool)
    requires
        interner.wf(),
        interner.knows(symbol),
    ensures
        r == is_label_name(interner, symbol),
{
    match interner.get(&symbol) {
        Some(name) => check_word(name.as_str()) || check_decimal(name.as_str()),
        None => false,
    }
}

/// Whether the names of the values read as words.
fn values_read(interner: &StringInterner, values: &Vec<IRValue>) -> (r: bool)
    requires
        interner.wf(),
        forall|i: int| 0 <= i < values.len() ==> interner.knows((#[trigger] values@[i]).id),
    ensures
        r == forall|i: int| 0 <= i < values.len() ==> is_name(interner, (#[trigger] values@[i]).id),
{
    let mut i: usize = 0;
    while i < values.len()
        invariant
            i <= values.len(),
            interner.wf(),
            forall|k: int| 0 <= k < values.len() ==> interner.knows((#[trigger] values@[k]).id),
            forall|k: int| 0 <= k < i ==> is_name(interner, (#[trigger] values@[k]).id),
        decreases values.len() - i,
    {
        if !name_reads(interner, values[i].id) {
            return false;
        }
        i = i + 1;
    }
    true
}

/// Whether every name in a computation whose symbols the interner knows
/// reads as one word, and every reference to a label as a word or a number.
fn comp_reads(interner: &StringInterner, comp: &IRComp) -> (r: bool)
    requires
        interner.wf(),
        comp_known(interner, comp@),
    ensures
        r == comp_named(interner, comp@),
{
    match comp.id {
        Some(id) => {
            if !name_reads(interner, id) {
                return false;
            }
        },
        None => {},
    }
    match &comp.kind {
        IRCompKind::FunctionCall(call) => {
            assert(comp@.kind == IRCompKindView::FunctionCall {
                name: call.name,
                args: call.args@,
            });
            assert forall|i: int| 0 <= i < call.args.len() implies interner.knows(
                (#[trigger] call.args@[i]).id,
            ) by {
                let args = comp@.kind->FunctionCall_args;
                assert(args == call.args@);
                assert(interner.knows(args[i].id));
            }
            if !name_reads(interner, call.name) {
                return false;
            }
            let all = values_read(interner, &call.args);
            proof {
                let args = comp@.kind->FunctionCall_args;
                assert(args == call.args@);
                if all {
                    assert forall|i: int| 0 <= i < args.len() implies is_name(
                        interner,
                        (#[trigger] args[i]).id,
                    ) by {
                        assert(is_name(interner, call.args@[i].id));
                    }
                }
            }
            all
        },
        IRCompKind::BinaryOperation(operation) => name_reads(interner, operation.left_operand.id)
            && name_reads(interner, operation.right_operand.id),
        IRCompKind::UnaryOperation(operation) => name_reads(interner, operation.operand.id),
        IRCompKind::Constant(_) => true,
        IRCompKind::Alloc(_) => true,
        IRCompKind::Store(_, location, value) => name_reads(interner, location.id) && name_reads(
            interner,
            value.id,
        ),
        IRCompKind::Load(_, location) => name_reads(interner, location.id),
        IRCompKind::OffsetStore(_, location, value, _) => name_reads(interner, location.id)
            && name_reads(interner, value.id),
        IRCompKind::OffsetLoad(_, location, _) => name_reads(interner, location.id),
        IRCompKind::Return(value) => name_reads(interner, value.id),
        IRCompKind::If(value, label) => name_reads(interner, value.id) && label_reads(
            interner,
            *label,
        ),
        IRCompKind::Jmp(label) => label_reads(interner, *label),
    }
}

/// Whether every name in a function whose symbols the interner knows
/// reads as one word, and every reference to a label as a word or a number.
pub fn function_reads(interner: &StringInterner, function: &IRItemFunctionDef) -> (r: bool)
    requires
        interner.wf(),
        function_known(interner, function@),
    ensures
        r == function_named(interner, function@),
{
    let ghost view = function@;
    if !name_reads(interner, function.name) {
        return false;
    }
    let mut i: usize = 0;
    while i < function.params.len()
        invariant
            i <= function.params.len(),
            interner.wf(),
            view == function@,
            function_known(interner, view),
            forall|k: int|
                0 <= k < i ==> ((#[trigger] view.params[k]).0 matches Some(name) ==> is_name(
                    interner,
                    name,
                )),
        decreases function.params.len() - i,
    {
        match function.params[i].0 {
            Some(name) => {
                assert(view.params[i as int].0 == Some(name));
                if !name_reads(interner, name) {
                    return false;
                }
            },
            None => {},
        }
        i = i + 1;
    }
    let mut i: usize = 0;
    while i < function.comps.len()
        invariant
            i <= function.comps.len(),
            interner.wf(),
            view == function@,
            function_known(interner, view),
            forall|k: int| 0 <= k < i ==> comp_named(interner, #[trigger] view.comps[k]),
        decreases function.comps.len() - i,
    {
        assert(view.comps[i as int] == function.comps@[i as int]@);
        assert(comp_known(interner, view.comps[i as int]));
        if !comp_reads(interner, &function.comps[i]) {
            return false;
        }
        i = i + 1;
    }
    let mut i: usize = 0;
    while i < function.label_defs.len()
        invariant
            i <= function.label_defs.len(),
            interner.wf(),
            view == function@,
            function_known(interner, view),
            is_name(interner, view.name),
            forall|k: int|
                0 <= k < view.params.len() ==> ((#[trigger] view.params[k]).0 matches Some(name)
                    ==> is_name(interner, name)),
            forall|k: int|
                0 <= k < view.comps.len() ==> comp_named(interner, #[trigger] view.comps[k]),
            forall|k: int| 0 <= k < i ==> is_name(interner, (#[trigger] view.label_defs[k]).0),
        decreases function.label_defs.len() - i,
    {
        assert(interner.knows(view.label_defs[i as int].0));
        if !name_reads(interner, function.label_defs[i].0) {
            return false;
        }
        i = i + 1;
    }
    true
}

} // verus!
