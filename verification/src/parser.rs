//! The recursive-descent parser: token stream to validated AST.
//!
//! Parsing is a pure function of the token sequence.  The spec functions
//! (`spec_*`) define, step by step, which fragment each grammar rule
//! yields and which error every violated expectation raises; the
//! executable functions return exactly what those spec functions say, so
//! parsing is deterministic by construction.  Any violated expectation
//! aborts the whole parse with a descriptive error; there is no recovery.

use vstd::prelude::*;

use crate::ast::{
    blocks_view, cond_view, devs_view, in_range, op_view, ops_view, spec_blocks_map,
    spec_devices_map, spec_in_range, Actuator, Block, BlockTable, Bound, Comparator, Condition,
    ConditionSetType, Device, DeviceTable, Operation, Sensor, SpecActuator, SpecAst, SpecBlock,
    SpecCond, SpecDevice, SpecOp, SpecSensor, AST,
};
use crate::num::Num;
use crate::token::{str_eq, tokens_view, SpecToken, Token};

verus! {

broadcast use
    vstd::std_specs::vec::group_vec_axioms,
    crate::ast::lemma_ops_view,
    crate::ast::lemma_conds_view,
    crate::ast::lemma_device_map_is_spec_map,
    crate::ast::lemma_block_map_is_spec_map,
;

/// Why a parse failed.  Every variant carries a fixed descriptive message
/// ([`ParseError::message`]); any error aborts the whole parse.
#[derive(Debug, Clone, Copy, PartialEq, Eq, Structural)]
pub enum ParseError {
    /// The device section was not followed by the separating newline.
    ExpectedNewlineAfterDevices,
    /// A device keyword was not followed by a name.
    ExpectedIdentAfterDeviceKind,
    /// A device declaration was not terminated by a newline.
    ExpectedNewlineAfterDevice,
    /// Block-section input that does not begin a block.
    ExpectedBlockDecl,
    /// A block body was not closed by `endblock`.
    ExpectedEndblock,
    /// `endblock` was not followed by a newline.
    ExpectedNewlineAfterEndblock,
    /// The program declares no block at all.
    NoBlocks,
    /// `block` was not followed by a name.
    ExpectedBlockName,
    /// A block's name was not followed by a newline.
    ExpectedNewlineAfterBlockName,
    /// A `set` or `goto` statement was not terminated by a newline.
    ExpectedNewlineAfterSet,
    /// `wait`, `any` or `all` was not followed by a colon.
    ExpectedColonAfterWait,
    /// `if` was not followed by a colon.
    ExpectedColonAfterIf,
    /// `else` was not followed by a colon.
    ExpectedColonAfterElse,
    /// A colon introducing a body was not followed by a newline.
    ExpectedNewlineAfterColon,
    /// A statement line began with a token no rule accepts.
    UnexpectedToken,
    /// `set` named no declared device.
    ExpectedSetDeviceName,
    /// `set` named a device that is not an actuator.
    ExpectedSetActuator,
    /// `set` gave no numeric value.
    ExpectedSetValue,
    /// `set` gave a value outside the actuator's declared range.
    ValueOutOfRange,
    /// `goto` named no block.
    ExpectedGotoBlockName,
    /// A condition line did not begin with `-`.
    ExpectedConditionStart,
    /// `any`/`all` with no sub-condition.
    EmptyConditionSet,
    /// A condition named no declared device.
    ExpectedCondDeviceName,
    /// A condition named a device that is not a sensor.
    ExpectedCondSensor,
    /// A condition gave no comparator after its sensor.
    ExpectedCondComparator,
    /// A condition gave no numeric value after its comparator.
    ExpectedCondValue,
    /// A condition line began with neither a device name nor `any`/`all`.
    ExpectedCondKeyword,
    /// A line carried the wrong number of leading tabs.
    BadIndentation,
    /// An internal invariant was violated (a comparator token with an
    /// unknown spelling).
    Internal,
}

/// The message of each error, as a sequence of characters.
pub open spec fn spec_message(e: ParseError) -> Seq<char> {
    match e {
        ParseError::ExpectedNewlineAfterDevices => "Expected newline after end of device list"@,
        ParseError::ExpectedIdentAfterDeviceKind => "Expected identifier after device type"@,
        ParseError::ExpectedNewlineAfterDevice => "Expected newline after device declaration"@,
        ParseError::ExpectedBlockDecl => "Expected block declaration"@,
        ParseError::ExpectedEndblock => "Expected \"endblock\" after block body"@,
        ParseError::ExpectedNewlineAfterEndblock => "Expected newline after \"endblock\""@,
        ParseError::NoBlocks => "No blocks provided"@,
        ParseError::ExpectedBlockName => "Expected valid block name after \"block\" statement"@,
        ParseError::ExpectedNewlineAfterBlockName => "Expected newline after block name"@,
        ParseError::ExpectedNewlineAfterSet => "Expected newline after set statement"@,
        ParseError::ExpectedColonAfterWait => "Expected colon after wait statement"@,
        ParseError::ExpectedColonAfterIf => "Expected colon after if statement"@,
        ParseError::ExpectedColonAfterElse => "Expected colon after else statement"@,
        ParseError::ExpectedNewlineAfterColon => "Expected newline after colon"@,
        ParseError::UnexpectedToken => "Unexpected token"@,
        ParseError::ExpectedSetDeviceName => "Expected valid device name after \"set\" statement"@,
        ParseError::ExpectedSetActuator => "Expected actuator device name after \"set\" statement"@,
        ParseError::ExpectedSetValue => "Expected valid device value after device name"@,
        ParseError::ValueOutOfRange => "Expected value in range of device range"@,
        ParseError::ExpectedGotoBlockName => "Expected block name after \"goto\" statement"@,
        ParseError::ExpectedConditionStart => "Expected \"-\" to mark beginning of condition"@,
        ParseError::EmptyConditionSet => "Expected conditions after any/all statement"@,
        ParseError::ExpectedCondDeviceName => "Expected valid device name after condition start"@,
        ParseError::ExpectedCondSensor => "Expected sensor device name after condition start"@,
        ParseError::ExpectedCondComparator => "Expected comparator after device name in condition"@,
        ParseError::ExpectedCondValue => "Expected valid value after comparator in condition"@,
        ParseError::ExpectedCondKeyword => "Expected device name, any, or all after condition start"@,
        ParseError::BadIndentation => "Invalid indentation, expected a tab (4 spaces)"@,
        ParseError::Internal => "Error in parsing, please report this bug"@,
    }
}

impl ParseError {
    /// The fixed descriptive message of this error.
    pub fn message(&self) -> (m: &'static str)
        ensures
            m@ == spec_message(*self),
    {
        match self {
            ParseError::ExpectedNewlineAfterDevices => "Expected newline after end of device list",
            ParseError::ExpectedIdentAfterDeviceKind => "Expected identifier after device type",
            ParseError::ExpectedNewlineAfterDevice => "Expected newline after device declaration",
            ParseError::ExpectedBlockDecl => "Expected block declaration",
            ParseError::ExpectedEndblock => "Expected \"endblock\" after block body",
            ParseError::ExpectedNewlineAfterEndblock => "Expected newline after \"endblock\"",
            ParseError::NoBlocks => "No blocks provided",
            ParseError::ExpectedBlockName => "Expected valid block name after \"block\" statement",
            ParseError::ExpectedNewlineAfterBlockName => "Expected newline after block name",
            ParseError::ExpectedNewlineAfterSet => "Expected newline after set statement",
            ParseError::ExpectedColonAfterWait => "Expected colon after wait statement",
            ParseError::ExpectedColonAfterIf => "Expected colon after if statement",
            ParseError::ExpectedColonAfterElse => "Expected colon after else statement",
            ParseError::ExpectedNewlineAfterColon => "Expected newline after colon",
            ParseError::UnexpectedToken => "Unexpected token",
            ParseError::ExpectedSetDeviceName => "Expected valid device name after \"set\" statement",
            ParseError::ExpectedSetActuator => "Expected actuator device name after \"set\" statement",
            ParseError::ExpectedSetValue => "Expected valid device value after device name",
            ParseError::ValueOutOfRange => "Expected value in range of device range",
            ParseError::ExpectedGotoBlockName => "Expected block name after \"goto\" statement",
            ParseError::ExpectedConditionStart => "Expected \"-\" to mark beginning of condition",
            ParseError::EmptyConditionSet => "Expected conditions after any/all statement",
            ParseError::ExpectedCondDeviceName => "Expected valid device name after condition start",
            ParseError::ExpectedCondSensor => "Expected sensor device name after condition start",
            ParseError::ExpectedCondComparator => "Expected comparator after device name in condition",
            ParseError::ExpectedCondValue => "Expected valid value after comparator in condition",
            ParseError::ExpectedCondKeyword => "Expected device name, any, or all after condition start",
            ParseError::BadIndentation => "Invalid indentation, expected a tab (4 spaces)",
            ParseError::Internal => "Error in parsing, please report this bug",
        }
    }
}

/// Whether exactly `d` tab tokens can be read at position `i` (false when
/// fewer than `d` tokens remain).
pub open spec fn spec_check_tabs(toks: Seq<SpecToken>, i: int, d: int) -> bool
    decreases d,
{
    if i < 0 || toks.len() < i + d {
        false
    } else if d <= 0 {
        true
    } else if toks[i] is Tab {
        spec_check_tabs(toks, i + 1, d - 1)
    } else {
        false
    }
}

/// Consumes `d` tab tokens at position `i`, or fails with the indentation
/// error.
pub open spec fn spec_consume_tabs(toks: Seq<SpecToken>, i: int, d: int) -> Result<
    int,
    ParseError,
>
    decreases d,
{
    if d <= 0 {
        Ok(i)
    } else if 0 <= i < toks.len() && toks[i] is Tab {
        spec_consume_tabs(toks, i + 1, d - 1)
    } else {
        Err(ParseError::BadIndentation)
    }
}

/// Consuming tabs only ever lands exactly `d` tokens further on, within
/// bounds.
pub proof fn lemma_consume_tabs(toks: Seq<SpecToken>, i: int, d: int)
    requires
        d >= 0,
    ensures
        spec_consume_tabs(toks, i, d) matches Ok(j) ==> j == i + d,
        d > 0 && spec_consume_tabs(toks, i, d) is Ok ==> 0 <= i && i + d <= toks.len(),
    decreases d,
{
    if d > 0 && 0 <= i < toks.len() && toks[i] is Tab {
        lemma_consume_tabs(toks, i + 1, d - 1);
    }
}

/// The first position at or after `i` that does not hold a newline token.
pub open spec fn spec_skip_newlines(toks: Seq<SpecToken>, i: int) -> int
    decreases toks.len() - i,
{
    if 0 <= i < toks.len() && toks[i] is Newline {
        spec_skip_newlines(toks, i + 1)
    } else {
        i
    }
}

/// Skipping newlines stays within bounds.
pub proof fn lemma_skip_newlines(toks: Seq<SpecToken>, i: int)
    requires
        0 <= i <= toks.len(),
    ensures
        i <= spec_skip_newlines(toks, i) <= toks.len(),
    decreases toks.len() - i,
{
    if i < toks.len() && toks[i] is Newline {
        lemma_skip_newlines(toks, i + 1);
    }
}

/// The device section: a maximal prefix of `actuator`/`sensor`
/// declarations from position `i`, each `KIND NAME NEWLINE`, every device
/// carrying the full declared range.  Yields the devices in source order
/// and the first unconsumed position.
pub open spec fn spec_devices(toks: Seq<SpecToken>, i: int) -> Result<
    (Seq<SpecDevice>, int),
    ParseError,
>
    decreases toks.len() - i,
{
    if i < 0 || i >= toks.len() {
        Ok((Seq::empty(), i))
    } else if toks[i] is Actuator || toks[i] is Sensor {
        if i + 1 >= toks.len() {
            Err(ParseError::ExpectedIdentAfterDeviceKind)
        } else {
            match toks[i + 1] {
                SpecToken::Identifier(name) => {
                    if i + 2 >= toks.len() || !(toks[i + 2] is Newline) {
                        Err(ParseError::ExpectedNewlineAfterDevice)
                    } else {
                        let dev = if toks[i] is Actuator {
                            SpecDevice::Actuator(
                                SpecActuator { name, min: Bound::Lowest, max: Bound::Highest },
                            )
                        } else {
                            SpecDevice::Sensor(
                                SpecSensor { name, min: Bound::Lowest, max: Bound::Highest },
                            )
                        };
                        match spec_devices(toks, i + 3) {
                            Ok((rest, j)) => Ok((seq![dev] + rest, j)),
                            Err(e) => Err(e),
                        }
                    }
                },
                _ => Err(ParseError::ExpectedIdentAfterDeviceKind),
            }
        }
    } else {
        Ok((Seq::empty(), i))
    }
}

/// A `set` statement body: a declared actuator's name and a literal value
/// within the actuator's declared range.
pub open spec fn spec_set(
    toks: Seq<SpecToken>,
    i: int,
    devs: Map<Seq<char>, SpecDevice>,
) -> Result<(SpecOp, int), ParseError> {
    if i < 0 || i >= toks.len() {
        Err(ParseError::ExpectedSetDeviceName)
    } else {
        match toks[i] {
            SpecToken::Identifier(name) => {
                if !devs.contains_key(name) {
                    Err(ParseError::ExpectedSetDeviceName)
                } else {
                    match devs[name] {
                        SpecDevice::Actuator(act) => {
                            if i + 1 >= toks.len() {
                                Err(ParseError::ExpectedSetValue)
                            } else {
                                match toks[i + 1] {
                                    SpecToken::Value(v) => {
                                        if !spec_in_range(v, act.min, act.max) {
                                            Err(ParseError::ValueOutOfRange)
                                        } else {
                                            Ok(
                                                (
                                                    SpecOp::SetOp { actuator: act, value: v },
                                                    i + 2,
                                                ),
                                            )
                                        }
                                    },
                                    _ => Err(ParseError::ExpectedSetValue),
                                }
                            }
                        },
                        SpecDevice::Sensor(_) => Err(ParseError::ExpectedSetActuator),
                    }
                }
            },
            _ => Err(ParseError::ExpectedSetDeviceName),
        }
    }
}

/// A `goto` statement body: a destination name, not checked against the
/// block table.
pub open spec fn spec_goto(toks: Seq<SpecToken>, i: int) -> Result<(SpecOp, int), ParseError> {
    if i < 0 || i >= toks.len() {
        Err(ParseError::ExpectedGotoBlockName)
    } else {
        match toks[i] {
            SpecToken::Identifier(name) => Ok((SpecOp::Goto { dest: name }, i + 1)),
            _ => Err(ParseError::ExpectedGotoBlockName),
        }
    }
}

/// The comparator a token spelling stands for; `None` for a spelling no
/// comparator token can carry.
pub open spec fn spec_comparator(s: Seq<char>) -> Option<Comparator> {
    if s == "<"@ {
        Some(Comparator::LT)
    } else if s == "<="@ {
        Some(Comparator::LTEQ)
    } else if s == "="@ {
        Some(Comparator::EQ)
    } else if s == ">"@ {
        Some(Comparator::GT)
    } else if s == ">="@ {
        Some(Comparator::GTEQ)
    } else {
        None
    }
}

/// A condition at depth `d`: exactly `d` leading tabs, the `-` marker,
/// then either a base comparison `SENSOR CMP VALUE NEWLINE` over a
/// declared sensor, or `any`/`all` `:` NEWLINE followed by its
/// sub-conditions at depth `d + 1`, of which there must be at least one.
pub open spec fn spec_condition(
    toks: Seq<SpecToken>,
    i: int,
    devs: Map<Seq<char>, SpecDevice>,
    d: nat,
) -> Result<(SpecCond, int), ParseError>
    decreases toks.len() - i, 0int,
{
    match spec_consume_tabs(toks, i, d as int) {
        Err(e) => Err(e),
        Ok(j) => {
            if j < i {
                Err(ParseError::Internal)  // consuming tabs never moves backwards
            } else if j >= toks.len() || !(toks[j] is ConditionStart) {
                Err(ParseError::ExpectedConditionStart)
            } else if j + 1 >= toks.len() {
                Err(ParseError::ExpectedCondKeyword)
            } else {
                match toks[j + 1] {
                    SpecToken::Any | SpecToken::All => {
                        if j + 2 >= toks.len() || !(toks[j + 2] is Colon) {
                            Err(ParseError::ExpectedColonAfterWait)
                        } else if j + 3 >= toks.len() || !(toks[j + 3] is Newline) {
                            Err(ParseError::ExpectedNewlineAfterColon)
                        } else {
                            match spec_cond_list(toks, j + 4, devs, d) {
                                Err(e) => Err(e),
                                Ok((cs, k)) => {
                                    if cs.len() == 0 {
                                        Err(ParseError::EmptyConditionSet)
                                    } else if toks[j + 1] is Any {
                                        Ok((SpecCond::Any(cs), k))
                                    } else {
                                        Ok((SpecCond::All(cs), k))
                                    }
                                },
                            }
                        }
                    },
                    SpecToken::Identifier(name) => {
                        if !devs.contains_key(name) {
                            Err(ParseError::ExpectedCondDeviceName)
                        } else {
                            match devs[name] {
                                SpecDevice::Sensor(sen) => {
                                    if j + 2 >= toks.len() {
                                        Err(ParseError::ExpectedCondComparator)
                                    } else {
                                        match toks[j + 2] {
                                            SpecToken::Comparator(c) => {
                                                match spec_comparator(c) {
                                                    None => Err(ParseError::Internal),
                                                    Some(cmp) => {
                                                        if j + 3 >= toks.len() {
                                                            Err(ParseError::ExpectedCondValue)
                                                        } else {
                                                            match toks[j + 3] {
                                                                SpecToken::Value(v) => {
                                                                    if j + 4 >= toks.len() || !(
                                                                    toks[j + 4] is Newline) {
                                                                        Err(
                                                                            ParseError::ExpectedNewlineAfterColon,
                                                                        )
                                                                    } else {
                                                                        Ok(
                                                                            (
                                                                                SpecCond::Base(
                                                                                    sen,
                                                                                    cmp,
                                                                                    v,
                                                                                ),
                                                                                j + 5,
                                                                            ),
                                                                        )
                                                                    }
                                                                },
                                                                _ => Err(
                                                                    ParseError::ExpectedCondValue,
                                                                ),
                                                            }
                                                        }
                                                    },
                                                }
                                            },
                                            _ => Err(ParseError::ExpectedCondComparator),
                                        }
                                    }
                                },
                                SpecDevice::Actuator(_) => Err(ParseError::ExpectedCondSensor),
                            }
                        }
                    },
                    _ => Err(ParseError::ExpectedCondKeyword),
                }
            }
        },
    }
}

/// The sub-conditions of an `any`/`all` at depth `d`: as long as the line
/// ahead carries `d + 1` tabs and then the `-` marker, one more condition
/// at depth `d + 1` is parsed and appended, in source order.
pub open spec fn spec_cond_list(
    toks: Seq<SpecToken>,
    i: int,
    devs: Map<Seq<char>, SpecDevice>,
    d: nat,
) -> Result<(Seq<SpecCond>, int), ParseError>
    decreases toks.len() - i, 1int,
{
    if i + d + 1 < toks.len() && toks[i + d + 1] is ConditionStart {
        match spec_condition(toks, i, devs, d + 1) {
            Err(e) => Err(e),
            Ok((c, j)) => {
                if j <= i || j > toks.len() {
                    Err(ParseError::Internal)  // a condition always consumes tokens
                } else {
                    match spec_cond_list(toks, j, devs, d) {
                        Err(e) => Err(e),
                        Ok((rest, k)) => Ok((seq![c] + rest, k)),
                    }
                }
            },
        }
    } else {
        Ok((Seq::empty(), i))
    }
}

/// A `wait` body at depth `d`: the condition tree one level deeper; the
/// condition consumes its own trailing newline.
pub open spec fn spec_wait(
    toks: Seq<SpecToken>,
    i: int,
    devs: Map<Seq<char>, SpecDevice>,
    d: nat,
) -> Result<(SpecOp, int), ParseError>
    decreases toks.len() - i, 1int,
{
    match spec_condition(toks, i, devs, d + 1) {
        Err(e) => Err(e),
        Ok((c, j)) => Ok((SpecOp::Wait { condition: c }, j)),
    }
}

/// An `if` body at depth `d`, starting after `if : NEWLINE`: the
/// condition one level deeper, the `if` branch one level deeper with
/// `else` allowed as terminator, and then, exactly when the next line at
/// the same depth `d` begins with `else`, an `else : NEWLINE` header and
/// the `else` branch one level deeper.  Without such a line the `else`
/// branch is absent.
pub open spec fn spec_if(
    toks: Seq<SpecToken>,
    i: int,
    devs: Map<Seq<char>, SpecDevice>,
    d: nat,
) -> Result<(SpecOp, int), ParseError>
    decreases toks.len() - i, 2int,
{
    match spec_condition(toks, i, devs, d + 1) {
        Err(e) => Err(e),
        Ok((cond, j)) => {
            if j <= i || j > toks.len() {
                Err(ParseError::Internal)  // a condition always consumes tokens
            } else {
                match spec_statements(toks, j, devs, d + 1, true) {
                    Err(e) => Err(e),
                    Ok((if_actions, j2)) => {
                        if j2 < j || j2 > toks.len() {
                            Err(ParseError::Internal)  // statement lists never move backwards
                        } else if spec_check_tabs(toks, j2, d as int) && j2 + d < toks.len()
                            && toks[j2 + d] is Else {
                            if j2 + d + 1 >= toks.len() || !(toks[j2 + d + 1] is Colon) {
                                Err(ParseError::ExpectedColonAfterElse)
                            } else if j2 + d + 2 >= toks.len() || !(toks[j2 + d + 2] is Newline) {
                                Err(ParseError::ExpectedNewlineAfterColon)
                            } else {
                                match spec_statements(toks, j2 + d + 3, devs, d + 1, false) {
                                    Err(e) => Err(e),
                                    Ok((else_actions, j3)) => Ok(
                                        (
                                            SpecOp::IfElse {
                                                if_condition: cond,
                                                if_actions,
                                                else_actions: Some(else_actions),
                                            },
                                            j3,
                                        ),
                                    ),
                                }
                            }
                        } else {
                            Ok(
                                (
                                    SpecOp::IfElse {
                                        if_condition: cond,
                                        if_actions,
                                        else_actions: None,
                                    },
                                    j2,
                                ),
                            )
                        }
                    },
                }
            }
        },
    }
}

/// A statement list at depth `d`: skip blank lines, stop at `endblock`,
/// at the end of input, at a line with the wrong number of leading tabs,
/// or at an `else` at this depth when `ifelse` permits one; otherwise
/// read exactly `d` tabs and dispatch on the keyword that follows.
pub open spec fn spec_statements(
    toks: Seq<SpecToken>,
    i: int,
    devs: Map<Seq<char>, SpecDevice>,
    d: nat,
    ifelse: bool,
) -> Result<(Seq<SpecOp>, int), ParseError>
    decreases toks.len() - i, 3int,
{
    if i < 0 || i >= toks.len() {
        Ok((Seq::empty(), i))
    } else if toks[i] is EndBlock {
        Ok((Seq::empty(), i))
    } else if toks[i] is Newline {
        spec_statements(toks, i + 1, devs, d, ifelse)
    } else if !spec_check_tabs(toks, i, d as int) {
        Ok((Seq::empty(), i))
    } else {
        match spec_consume_tabs(toks, i, d as int) {
            Err(e) => Err(e),
            Ok(j) => {
                if j < i {
                    Err(ParseError::Internal)  // consuming tabs never moves backwards
                } else if j >= toks.len() {
                    Err(ParseError::UnexpectedToken)
                } else {
                    match toks[j] {
                        SpecToken::SetKw => spec_stmt_set(toks, j, devs, d, ifelse),
                        SpecToken::Goto => spec_stmt_goto(toks, j, devs, d, ifelse),
                        SpecToken::Wait => spec_stmt_wait(toks, j, devs, d, ifelse),
                        SpecToken::If => spec_stmt_if(toks, j, devs, d, ifelse),
                        SpecToken::Else => {
                            if ifelse {
                                Ok((Seq::empty(), j))
                            } else {
                                Err(ParseError::UnexpectedToken)
                            }
                        },
                        _ => Err(ParseError::UnexpectedToken),
                    }
                }
            },
        }
    }
}

/// A statement line that begins with `set` (the tabs already consumed,
/// `set` at `j`): the set body, a newline, then the rest of the list.
pub open spec fn spec_stmt_set(
    toks: Seq<SpecToken>,
    j: int,
    devs: Map<Seq<char>, SpecDevice>,
    d: nat,
    ifelse: bool,
) -> Result<(Seq<SpecOp>, int), ParseError>
    decreases toks.len() - j, 2int,
{
    match spec_set(toks, j + 1, devs) {
        Err(e) => Err(e),
        Ok((op, j2)) => {
            if j2 <= j {
                Err(ParseError::Internal)  // a set body always advances
            } else if j2 >= toks.len() || !(toks[j2] is Newline) {
                Err(ParseError::ExpectedNewlineAfterSet)
            } else {
                match spec_statements(toks, j2 + 1, devs, d, ifelse) {
                    Err(e) => Err(e),
                    Ok((rest, k)) => Ok((seq![op] + rest, k)),
                }
            }
        },
    }
}

/// A statement line that begins with `goto` (`goto` at `j`): the goto
/// body, a newline, then the rest of the list.
pub open spec fn spec_stmt_goto(
    toks: Seq<SpecToken>,
    j: int,
    devs: Map<Seq<char>, SpecDevice>,
    d: nat,
    ifelse: bool,
) -> Result<(Seq<SpecOp>, int), ParseError>
    decreases toks.len() - j, 2int,
{
    match spec_goto(toks, j + 1) {
        Err(e) => Err(e),
        Ok((op, j2)) => {
            if j2 <= j {
                Err(ParseError::Internal)  // a goto body always advances
            } else if j2 >= toks.len() || !(toks[j2] is Newline) {
                Err(ParseError::ExpectedNewlineAfterSet)
            } else {
                match spec_statements(toks, j2 + 1, devs, d, ifelse) {
                    Err(e) => Err(e),
                    Ok((rest, k)) => Ok((seq![op] + rest, k)),
                }
            }
        },
    }
}

/// A statement line that begins with `wait` (`wait` at `j`): `: NEWLINE`,
/// the condition one level deeper, then the rest of the list.
pub open spec fn spec_stmt_wait(
    toks: Seq<SpecToken>,
    j: int,
    devs: Map<Seq<char>, SpecDevice>,
    d: nat,
    ifelse: bool,
) -> Result<(Seq<SpecOp>, int), ParseError>
    decreases toks.len() - j, 2int,
{
    if j + 1 >= toks.len() || !(toks[j + 1] is Colon) {
        Err(ParseError::ExpectedColonAfterWait)
    } else if j + 2 >= toks.len() || !(toks[j + 2] is Newline) {
        Err(ParseError::ExpectedNewlineAfterColon)
    } else {
        match spec_wait(toks, j + 3, devs, d) {
            Err(e) => Err(e),
            Ok((op, j2)) => {
                if j2 <= j || j2 > toks.len() {
                    Err(ParseError::Internal)  // a wait always advances
                } else {
                    match spec_statements(toks, j2, devs, d, ifelse) {
                        Err(e) => Err(e),
                        Ok((rest, k)) => Ok((seq![op] + rest, k)),
                    }
                }
            },
        }
    }
}

/// A statement line that begins with `if` (`if` at `j`): `: NEWLINE`, the
/// whole if/else operation, then the rest of the list.
pub open spec fn spec_stmt_if(
    toks: Seq<SpecToken>,
    j: int,
    devs: Map<Seq<char>, SpecDevice>,
    d: nat,
    ifelse: bool,
) -> Result<(Seq<SpecOp>, int), ParseError>
    decreases toks.len() - j, 2int,
{
    if j + 1 >= toks.len() || !(toks[j + 1] is Colon) {
        Err(ParseError::ExpectedColonAfterIf)
    } else if j + 2 >= toks.len() || !(toks[j + 2] is Newline) {
        Err(ParseError::ExpectedNewlineAfterColon)
    } else {
        match spec_if(toks, j + 3, devs, d) {
            Err(e) => Err(e),
            Ok((op, j2)) => {
                if j2 <= j || j2 > toks.len() {
                    Err(ParseError::Internal)  // an if always advances
                } else {
                    match spec_statements(toks, j2, devs, d, ifelse) {
                        Err(e) => Err(e),
                        Ok((rest, k)) => Ok((seq![op] + rest, k)),
                    }
                }
            },
        }
    }
}


/// One block, after its `block` keyword: the block's name, a newline, and
/// the statement list at depth one.
pub open spec fn spec_block(
    toks: Seq<SpecToken>,
    i: int,
    devs: Map<Seq<char>, SpecDevice>,
) -> Result<((Seq<char>, SpecBlock), int), ParseError>
    decreases toks.len() - i, 4int,
{
    if i < 0 || i >= toks.len() {
        Err(ParseError::ExpectedBlockName)
    } else {
        match toks[i] {
            SpecToken::Identifier(name) => {
                if i + 1 >= toks.len() || !(toks[i + 1] is Newline) {
                    Err(ParseError::ExpectedNewlineAfterBlockName)
                } else {
                    match spec_statements(toks, i + 2, devs, 1, false) {
                        Err(e) => Err(e),
                        Ok((ops, j)) => Ok(((name, SpecBlock { ops }), j)),
                    }
                }
            },
            _ => Err(ParseError::ExpectedBlockName),
        }
    }
}

/// The block section from position `i`: one block after another, each
/// framed as `block NAME NEWLINE body endblock NEWLINE` with any further
/// blank lines swallowed, until the input ends.  Yields the named blocks
/// in source order.
pub open spec fn spec_blocks(
    toks: Seq<SpecToken>,
    i: int,
    devs: Map<Seq<char>, SpecDevice>,
) -> Result<(Seq<(Seq<char>, SpecBlock)>, int), ParseError>
    decreases toks.len() - i, 5int,
{
    if i < 0 || i >= toks.len() {
        Ok((Seq::empty(), i))
    } else if !(toks[i] is StartBlock) {
        Err(ParseError::ExpectedBlockDecl)
    } else {
        match spec_block(toks, i + 1, devs) {
            Err(e) => Err(e),
            Ok(((name, b), j)) => {
                if j <= i {
                    Err(ParseError::Internal)  // a block always consumes tokens
                } else if j >= toks.len() || !(toks[j] is EndBlock) {
                    Err(ParseError::ExpectedEndblock)
                } else if j + 1 >= toks.len() || !(toks[j + 1] is Newline) {
                    Err(ParseError::ExpectedNewlineAfterEndblock)
                } else {
                    let j2 = spec_skip_newlines(toks, j + 2);
                    if j2 < j + 2 || j2 > toks.len() {
                        Err(ParseError::Internal)  // skipping newlines stays in bounds
                    } else {
                        match spec_blocks(toks, j2, devs) {
                            Err(e) => Err(e),
                            Ok((rest, k)) => Ok((seq![(name, b)] + rest, k)),
                        }
                    }
                }
            },
        }
    }
}

/// The whole program: the device section, one separating newline, and at
/// least one block.  The entry block is the first block in source order;
/// the device and block tables key each entry by name, later entries
/// winning.  Tokens after the last block are not inspected.
pub open spec fn spec_make_ast(toks: Seq<SpecToken>) -> Result<SpecAst, ParseError> {
    match spec_devices(toks, 0) {
        Err(e) => Err(e),
        Ok((devlist, i)) => {
            if i >= toks.len() || !(toks[i] is Newline) {
                Err(ParseError::ExpectedNewlineAfterDevices)
            } else {
                match spec_blocks(toks, i + 1, spec_devices_map(devlist)) {
                    Err(e) => Err(e),
                    Ok((blist, _j)) => {
                        if blist.len() == 0 {
                            Err(ParseError::NoBlocks)
                        } else {
                            Ok(
                                SpecAst {
                                    first_block_name: blist[0].0,
                                    devices: spec_devices_map(devlist),
                                    blocks: spec_blocks_map(blist),
                                },
                            )
                        }
                    },
                }
            }
        },
    }
}

/// Maps an executable block result to its model.
pub open spec fn block_res_view(r: Result<((String, Block), usize), ParseError>) -> Result<
    ((Seq<char>, SpecBlock), int),
    ParseError,
> {
    match r {
        Ok(((name, b), j)) => Ok(((name@, b@), j as int)),
        Err(e) => Err(e),
    }
}

/// Maps an executable block-list result to its model.
pub open spec fn blocks_res_view(r: Result<(Vec<(String, Block)>, usize), ParseError>) -> Result<
    (Seq<(Seq<char>, SpecBlock)>, int),
    ParseError,
> {
    match r {
        Ok((bs, j)) => Ok((blocks_view(bs@), j as int)),
        Err(e) => Err(e),
    }
}

/// Maps an executable parse result to its model.
pub open spec fn ast_res_view(r: Result<AST, ParseError>) -> Result<SpecAst, ParseError> {
    match r {
        Ok(ast) => Ok(ast@),
        Err(e) => Err(e),
    }
}

/// Maps an executable index result to its model.
pub open spec fn idx_res_view(r: Result<usize, ParseError>) -> Result<int, ParseError> {
    match r {
        Ok(j) => Ok(j as int),
        Err(e) => Err(e),
    }
}

/// Maps an executable operation result to its model.
pub open spec fn op_res_view(r: Result<(Operation, usize), ParseError>) -> Result<
    (SpecOp, int),
    ParseError,
> {
    match r {
        Ok((op, j)) => Ok((op_view(op), j as int)),
        Err(e) => Err(e),
    }
}

/// Maps an executable condition result to its model.
pub open spec fn cond_res_view(r: Result<(Condition, usize), ParseError>) -> Result<
    (SpecCond, int),
    ParseError,
> {
    match r {
        Ok((c, j)) => Ok((cond_view(c), j as int)),
        Err(e) => Err(e),
    }
}

/// Maps an executable condition-list result to its model.
pub open spec fn conds_res_view(r: Result<(Vec<Condition>, usize), ParseError>) -> Result<
    (Seq<SpecCond>, int),
    ParseError,
> {
    match r {
        Ok((cs, j)) => Ok((crate::ast::conds_view(cs@), j as int)),
        Err(e) => Err(e),
    }
}

/// Maps an executable operation-list result to its model.
pub open spec fn ops_res_view(r: Result<(Vec<Operation>, usize), ParseError>) -> Result<
    (Seq<SpecOp>, int),
    ParseError,
> {
    match r {
        Ok((ops, j)) => Ok((ops_view(ops@), j as int)),
        Err(e) => Err(e),
    }
}

/// Maps an executable device-section result to its model.
pub open spec fn devices_res_view(r: Result<(DeviceTable, usize), ParseError>) -> Result<
    (Seq<SpecDevice>, int),
    ParseError,
> {
    match r {
        Ok((t, j)) => Ok((devs_view(t.entries@), j as int)),
        Err(e) => Err(e),
    }
}

/// Decides whether exactly `tabdepth` tab tokens open the line at `start`.
fn check_tabs(tokens: &Vec<Token>, start: usize, tabdepth: usize) -> (b: bool)
    ensures
        b == spec_check_tabs(tokens_view(tokens@), start as int, tabdepth as int),
    decreases tabdepth,
{
    if tabdepth > tokens.len() || start > tokens.len() - tabdepth {
        return false;
    }
    if tabdepth == 0 {
        return true;
    }
    match &tokens[start] {
        Token::Tab => check_tabs(tokens, start + 1, tabdepth - 1),
        _ => false,
    }
}

/// Consumes exactly `tabdepth` tab tokens, or fails with the indentation
/// error.
fn consume_tabs(tokens: &Vec<Token>, start: usize, tabdepth: usize) -> (r: Result<
    usize,
    ParseError,
>)
    requires
        start <= tokens@.len(),
    ensures
        idx_res_view(r) == spec_consume_tabs(tokens_view(tokens@), start as int, tabdepth as int),
        r matches Ok(j) ==> j == start + tabdepth && j <= tokens@.len(),
    decreases tabdepth,
{
    proof {
        lemma_consume_tabs(tokens_view(tokens@), start as int, tabdepth as int);
    }
    if tabdepth == 0 {
        return Ok(start);
    }
    if start < tokens.len() {
        match &tokens[start] {
            Token::Tab => {
                return consume_tabs(tokens, start + 1, tabdepth - 1);
            },
            _ => {
                return Err(ParseError::BadIndentation);
            },
        }
    }
    Err(ParseError::BadIndentation)
}

/// The first position at or after `start` that holds no newline token.
fn skip_newlines(tokens: &Vec<Token>, start: usize) -> (r: usize)
    requires
        start <= tokens@.len(),
    ensures
        r == spec_skip_newlines(tokens_view(tokens@), start as int),
        start <= r <= tokens@.len(),
    decreases tokens@.len() - start,
{
    if start < tokens.len() {
        match &tokens[start] {
            Token::Newline => {
                return skip_newlines(tokens, start + 1);
            },
            _ => {
                return start;
            },
        }
    }
    start
}

/// Parses the device section: a maximal prefix of device declarations,
/// yielding the device table and the first unconsumed position.
fn make_devices(tokens: &Vec<Token>, start: usize) -> (r: Result<(DeviceTable, usize), ParseError>)
    requires
        start <= tokens@.len(),
    ensures
        devices_res_view(r) == spec_devices(tokens_view(tokens@), start as int),
        r matches Ok(p) ==> start <= p.1 <= tokens@.len(),
    decreases tokens@.len() - start,
{
    if start >= tokens.len() {
        let table = DeviceTable { entries: Vec::new() };
        proof {
            assert(devs_view(table.entries@) =~= Seq::<SpecDevice>::empty());
        }
        return Ok((table, start));
    }
    let is_act = matches!(&tokens[start], Token::Actuator);
    let is_sen = matches!(&tokens[start], Token::Sensor);
    if !is_act && !is_sen {
        let table = DeviceTable { entries: Vec::new() };
        proof {
            assert(devs_view(table.entries@) =~= Seq::<SpecDevice>::empty());
        }
        return Ok((table, start));
    }
    if start + 1 >= tokens.len() {
        return Err(ParseError::ExpectedIdentAfterDeviceKind);
    }
    let dev_name: String = match &tokens[start + 1] {
        Token::Identifier(n) => n.clone(),
        _ => {
            return Err(ParseError::ExpectedIdentAfterDeviceKind);
        },
    };
    if start + 2 >= tokens.len() {
        return Err(ParseError::ExpectedNewlineAfterDevice);
    }
    if !matches!(&tokens[start + 2], Token::Newline) {
        return Err(ParseError::ExpectedNewlineAfterDevice);
    }
    let device = if is_act {
        Device::Actuator(Actuator { name: dev_name, min: Bound::Lowest, max: Bound::Highest })
    } else {
        Device::Sensor(Sensor { name: dev_name, min: Bound::Lowest, max: Bound::Highest })
    };
    match make_devices(tokens, start + 3) {
        Ok((rest, j)) => {
            let mut table = rest;
            let ghost rest_entries: Seq<Device> = table.entries@;
            table.entries.insert(0, device);
            proof {
                assert(devs_view(table.entries@) =~= seq![device@] + devs_view(rest_entries));
            }
            Ok((table, j))
        },
        Err(e) => Err(e),
    }
}

/// Parses the body of a `set` statement: the actuator name and the value.
fn make_set(tokens: &Vec<Token>, start: usize, devices: &DeviceTable) -> (r: Result<
    (Operation, usize),
    ParseError,
>)
    ensures
        op_res_view(r) == spec_set(tokens_view(tokens@), start as int, devices@),
        r matches Ok(p) ==> start < p.1 <= tokens@.len(),
{
    if start >= tokens.len() {
        return Err(ParseError::ExpectedSetDeviceName);
    }
    let dev_name: &String = match &tokens[start] {
        Token::Identifier(n) => n,
        _ => {
            return Err(ParseError::ExpectedSetDeviceName);
        },
    };
    let act: &Actuator = match devices.get(dev_name) {
        None => {
            return Err(ParseError::ExpectedSetDeviceName);
        },
        Some(Device::Actuator(a)) => a,
        Some(Device::Sensor(_)) => {
            return Err(ParseError::ExpectedSetActuator);
        },
    };
    if start + 1 >= tokens.len() {
        return Err(ParseError::ExpectedSetValue);
    }
    let value: &Num = match &tokens[start + 1] {
        Token::Value(v) => v,
        _ => {
            return Err(ParseError::ExpectedSetValue);
        },
    };
    if !in_range(value, act.min, act.max) {
        return Err(ParseError::ValueOutOfRange);
    }
    let actuator = Actuator { name: act.name.clone(), min: act.min, max: act.max };
    Ok((Operation::SetOp { actuator, value: value.duplicate() }, start + 2))
}

/// Parses the body of a `goto` statement: the destination block name,
/// which is not checked against the block table.
fn make_goto(tokens: &Vec<Token>, start: usize) -> (r: Result<(Operation, usize), ParseError>)
    ensures
        op_res_view(r) == spec_goto(tokens_view(tokens@), start as int),
        r matches Ok(p) ==> start < p.1 <= tokens@.len(),
{
    if start >= tokens.len() {
        return Err(ParseError::ExpectedGotoBlockName);
    }
    match &tokens[start] {
        Token::Identifier(n) => Ok((Operation::Goto { dest: n.clone() }, start + 1)),
        _ => Err(ParseError::ExpectedGotoBlockName),
    }
}

/// Parses one condition at depth `tabdepth`: its leading tabs, the `-`
/// marker, then a base comparison or an `any`/`all` aggregate with its
/// sub-conditions one level deeper.
fn make_condition(tokens: &Vec<Token>, start: usize, devices: &DeviceTable, tabdepth: usize) -> (r:
    Result<(Condition, usize), ParseError>)
    requires
        start <= tokens@.len(),
    ensures
        cond_res_view(r) == spec_condition(
            tokens_view(tokens@),
            start as int,
            devices@,
            tabdepth as nat,
        ),
        r matches Ok(p) ==> start < p.1 <= tokens@.len(),
    decreases tokens@.len() - start, 0int,
{
    let j = match consume_tabs(tokens, start, tabdepth) {
        Ok(j) => j,
        Err(e) => {
            return Err(e);
        },
    };
    if j >= tokens.len() {
        return Err(ParseError::ExpectedConditionStart);
    }
    if !matches!(&tokens[j], Token::ConditionStart) {
        return Err(ParseError::ExpectedConditionStart);
    }
    if j + 1 >= tokens.len() {
        return Err(ParseError::ExpectedCondKeyword);
    }
    let kind: Option<ConditionSetType> = match &tokens[j + 1] {
        Token::Any => Some(ConditionSetType::Any),
        Token::All => Some(ConditionSetType::All),
        _ => None,
    };
    if let Some(kind) = kind {
        if j + 2 >= tokens.len() || !matches!(&tokens[j + 2], Token::Colon) {
            return Err(ParseError::ExpectedColonAfterWait);
        }
        if j + 3 >= tokens.len() || !matches!(&tokens[j + 3], Token::Newline) {
            return Err(ParseError::ExpectedNewlineAfterColon);
        }
        let (conds, k) = match make_condition_list(tokens, j + 4, devices, tabdepth) {
            Ok(p) => p,
            Err(e) => {
                return Err(e);
            },
        };
        if conds.len() == 0 {
            return Err(ParseError::EmptyConditionSet);
        }
        match kind {
            ConditionSetType::Any => Ok((Condition::Any(conds), k)),
            ConditionSetType::All => Ok((Condition::All(conds), k)),
        }
    } else {
        let dev_name: &String = match &tokens[j + 1] {
            Token::Identifier(n) => n,
            _ => {
                return Err(ParseError::ExpectedCondKeyword);
            },
        };
        let sen: &Sensor = match devices.get(dev_name) {
            None => {
                return Err(ParseError::ExpectedCondDeviceName);
            },
            Some(Device::Sensor(s)) => s,
            Some(Device::Actuator(_)) => {
                return Err(ParseError::ExpectedCondSensor);
            },
        };
        if j + 2 >= tokens.len() {
            return Err(ParseError::ExpectedCondComparator);
        }
        let comp: &String = match &tokens[j + 2] {
            Token::Comparator(c) => c,
            _ => {
                return Err(ParseError::ExpectedCondComparator);
            },
        };
        let cmp: Comparator = if str_eq(comp.as_str(), "<") {
            Comparator::LT
        } else if str_eq(comp.as_str(), "<=") {
            Comparator::LTEQ
        } else if str_eq(comp.as_str(), "=") {
            Comparator::EQ
        } else if str_eq(comp.as_str(), ">") {
            Comparator::GT
        } else if str_eq(comp.as_str(), ">=") {
            Comparator::GTEQ
        } else {
            return Err(ParseError::Internal);
        };
        if j + 3 >= tokens.len() {
            return Err(ParseError::ExpectedCondValue);
        }
        let value: &Num = match &tokens[j + 3] {
            Token::Value(v) => v,
            _ => {
                return Err(ParseError::ExpectedCondValue);
            },
        };
        if j + 4 >= tokens.len() || !matches!(&tokens[j + 4], Token::Newline) {
            return Err(ParseError::ExpectedNewlineAfterColon);
        }
        let sensor = Sensor { name: sen.name.clone(), min: sen.min, max: sen.max };
        Ok((Condition::Base(sensor, cmp, value.duplicate()), j + 5))
    }
}

/// Parses the sub-conditions of an `any`/`all` at depth `tabdepth`, in
/// source order, for as long as a line with one more tab and the `-`
/// marker lies ahead.
fn make_condition_list(
    tokens: &Vec<Token>,
    start: usize,
    devices: &DeviceTable,
    tabdepth: usize,
) -> (r: Result<(Vec<Condition>, usize), ParseError>)
    requires
        start <= tokens@.len(),
    ensures
        conds_res_view(r) == spec_cond_list(
            tokens_view(tokens@),
            start as int,
            devices@,
            tabdepth as nat,
        ),
        r matches Ok(p) ==> start <= p.1 <= tokens@.len(),
    decreases tokens@.len() - start, 1int,
{
    if tabdepth < tokens.len() && start < tokens.len() - tabdepth - 1 {
        if matches!(&tokens[start + tabdepth + 1], Token::ConditionStart) {
            let (c, j) = match make_condition(tokens, start, devices, tabdepth + 1) {
                Ok(p) => p,
                Err(e) => {
                    return Err(e);
                },
            };
            let (rest, k) = match make_condition_list(tokens, j, devices, tabdepth) {
                Ok(p) => p,
                Err(e) => {
                    return Err(e);
                },
            };
            let mut conds = rest;
            let ghost rest_seq: Seq<Condition> = conds@;
            conds.insert(0, c);
            proof {
                assert(crate::ast::conds_view(conds@) =~= seq![cond_view(c)]
                    + crate::ast::conds_view(rest_seq));
            }
            return Ok((conds, k));
        }
        let empty: Vec<Condition> = Vec::new();
        proof {
            assert(crate::ast::conds_view(empty@) =~= Seq::<SpecCond>::empty());
        }
        return Ok((empty, start));
    }
    let empty: Vec<Condition> = Vec::new();
    proof {
        assert(crate::ast::conds_view(empty@) =~= Seq::<SpecCond>::empty());
    }
    Ok((empty, start))
}

/// Parses a `wait` body: the condition tree one level deeper.
fn make_wait(tokens: &Vec<Token>, start: usize, devices: &DeviceTable, tabdepth: usize) -> (r:
    Result<(Operation, usize), ParseError>)
    requires
        start <= tokens@.len(),
        tabdepth < usize::MAX,
    ensures
        op_res_view(r) == spec_wait(tokens_view(tokens@), start as int, devices@, tabdepth as nat),
        r matches Ok(p) ==> start < p.1 <= tokens@.len(),
    decreases tokens@.len() - start, 1int,
{
    match make_condition(tokens, start, devices, tabdepth + 1) {
        Err(e) => Err(e),
        Ok((condition, j)) => Ok((Operation::Wait { condition }, j)),
    }
}

/// Parses an `if` body starting after `if : NEWLINE`: the condition and
/// the `if` branch one level deeper, then an `else` branch exactly when
/// the next line at the same depth begins with `else`.
#[verifier::rlimit(60)]
fn make_if(tokens: &Vec<Token>, start: usize, devices: &DeviceTable, tabdepth: usize) -> (r:
    Result<(Operation, usize), ParseError>)
    requires
        start <= tokens@.len(),
        tabdepth < usize::MAX,
    ensures
        op_res_view(r) == spec_if(tokens_view(tokens@), start as int, devices@, tabdepth as nat),
        r matches Ok(p) ==> start < p.1 <= tokens@.len(),
    decreases tokens@.len() - start, 2int,
{
    let (if_condition, j) = match make_condition(tokens, start, devices, tabdepth + 1) {
        Ok(p) => p,
        Err(e) => {
            return Err(e);
        },
    };
    let (if_actions, j2) = match make_statements(tokens, j, devices, tabdepth + 1, true) {
        Ok(p) => p,
        Err(e) => {
            return Err(e);
        },
    };
    let n = tokens.len();
    let has_else = if check_tabs(tokens, j2, tabdepth) {
        proof {
            assert(j2 + tabdepth <= tokens@.len());
        }
        j2 + tabdepth < n && matches!(&tokens[j2 + tabdepth], Token::Else)
    } else {
        false
    };
    if has_else {
        let e = j2 + tabdepth;
        if e + 1 >= tokens.len() || !matches!(&tokens[e + 1], Token::Colon) {
            return Err(ParseError::ExpectedColonAfterElse);
        }
        if e + 2 >= tokens.len() || !matches!(&tokens[e + 2], Token::Newline) {
            return Err(ParseError::ExpectedNewlineAfterColon);
        }
        let (else_actions, j3) = match make_statements(tokens, e + 3, devices, tabdepth + 1, false)
            {
            Ok(p) => p,
            Err(e2) => {
                return Err(e2);
            },
        };
        Ok(
            (
                Operation::IfElse {
                    if_condition,
                    if_actions,
                    else_actions: Some(else_actions),
                },
                j3,
            ),
        )
    } else {
        Ok((Operation::IfElse { if_condition, if_actions, else_actions: None }, j2))
    }
}

/// Parses a statement list at depth `tabdepth`: skips blank lines, stops
/// at `endblock`, at the end of input, at a line with the wrong number of
/// leading tabs, or at an `else` at this depth when `ifelse` permits one,
/// and otherwise dispatches on the keyword after the tabs.
#[verifier::rlimit(100)]
fn make_statements(
    tokens: &Vec<Token>,
    start: usize,
    devices: &DeviceTable,
    tabdepth: usize,
    ifelse: bool,
) -> (r: Result<(Vec<Operation>, usize), ParseError>)
    requires
        start <= tokens@.len(),
    ensures
        ops_res_view(r) == spec_statements(
            tokens_view(tokens@),
            start as int,
            devices@,
            tabdepth as nat,
            ifelse,
        ),
        r matches Ok(p) ==> start <= p.1 <= tokens@.len(),
    decreases tokens@.len() - start, 3int,
{
    if start >= tokens.len() {
        let empty: Vec<Operation> = Vec::new();
        proof {
            assert(ops_view(empty@) =~= Seq::<SpecOp>::empty());
        }
        return Ok((empty, start));
    }
    match &tokens[start] {
        Token::EndBlock => {
            let empty: Vec<Operation> = Vec::new();
            proof {
                assert(ops_view(empty@) =~= Seq::<SpecOp>::empty());
            }
            return Ok((empty, start));
        },
        Token::Newline => {
            return make_statements(tokens, start + 1, devices, tabdepth, ifelse);
        },
        _ => {},
    }
    if !check_tabs(tokens, start, tabdepth) {
        let empty: Vec<Operation> = Vec::new();
        proof {
            assert(ops_view(empty@) =~= Seq::<SpecOp>::empty());
        }
        return Ok((empty, start));
    }
    let j = match consume_tabs(tokens, start, tabdepth) {
        Ok(j) => j,
        Err(e) => {
            return Err(e);
        },
    };
    if j >= tokens.len() {
        return Err(ParseError::UnexpectedToken);
    }
    match &tokens[j] {
        Token::SetKw => make_stmt_set(tokens, j, devices, tabdepth, ifelse),
        Token::Goto => make_stmt_goto(tokens, j, devices, tabdepth, ifelse),
        Token::Wait => make_stmt_wait(tokens, j, devices, tabdepth, ifelse),
        Token::If => make_stmt_if(tokens, j, devices, tabdepth, ifelse),
        Token::Else => {
            if ifelse {
                let empty: Vec<Operation> = Vec::new();
                proof {
                    assert(ops_view(empty@) =~= Seq::<SpecOp>::empty());
                }
                Ok((empty, j))
            } else {
                Err(ParseError::UnexpectedToken)
            }
        },
        _ => Err(ParseError::UnexpectedToken),
    }
}

/// Parses a statement line that begins with `set`.
fn make_stmt_set(
    tokens: &Vec<Token>,
    j: usize,
    devices: &DeviceTable,
    tabdepth: usize,
    ifelse: bool,
) -> (r: Result<(Vec<Operation>, usize), ParseError>)
    requires
        j < tokens@.len(),
    ensures
        ops_res_view(r) == spec_stmt_set(
            tokens_view(tokens@),
            j as int,
            devices@,
            tabdepth as nat,
            ifelse,
        ),
        r matches Ok(p) ==> j < p.1 <= tokens@.len(),
    decreases tokens@.len() - j, 2int,
{
    let n = tokens.len();
    let (op, j2) = match make_set(tokens, j + 1, devices) {
        Ok(p) => p,
        Err(e) => {
            return Err(e);
        },
    };
    if j2 >= n || !matches!(&tokens[j2], Token::Newline) {
        return Err(ParseError::ExpectedNewlineAfterSet);
    }
    let (rest, k) = match make_statements(tokens, j2 + 1, devices, tabdepth, ifelse) {
        Ok(p) => p,
        Err(e) => {
            return Err(e);
        },
    };
    let mut ops = rest;
    let ghost rest_seq: Seq<Operation> = ops@;
    ops.insert(0, op);
    proof {
        assert(ops_view(ops@) =~= seq![op_view(op)] + ops_view(rest_seq));
    }
    Ok((ops, k))
}

/// Parses a statement line that begins with `goto`.
fn make_stmt_goto(
    tokens: &Vec<Token>,
    j: usize,
    devices: &DeviceTable,
    tabdepth: usize,
    ifelse: bool,
) -> (r: Result<(Vec<Operation>, usize), ParseError>)
    requires
        j < tokens@.len(),
    ensures
        ops_res_view(r) == spec_stmt_goto(
            tokens_view(tokens@),
            j as int,
            devices@,
            tabdepth as nat,
            ifelse,
        ),
        r matches Ok(p) ==> j < p.1 <= tokens@.len(),
    decreases tokens@.len() - j, 2int,
{
    let n = tokens.len();
    let (op, j2) = match make_goto(tokens, j + 1) {
        Ok(p) => p,
        Err(e) => {
            return Err(e);
        },
    };
    if j2 >= n || !matches!(&tokens[j2], Token::Newline) {
        return Err(ParseError::ExpectedNewlineAfterSet);
    }
    let (rest, k) = match make_statements(tokens, j2 + 1, devices, tabdepth, ifelse) {
        Ok(p) => p,
        Err(e) => {
            return Err(e);
        },
    };
    let mut ops = rest;
    let ghost rest_seq: Seq<Operation> = ops@;
    ops.insert(0, op);
    proof {
        assert(ops_view(ops@) =~= seq![op_view(op)] + ops_view(rest_seq));
    }
    Ok((ops, k))
}

/// Parses a statement line that begins with `wait`.
fn make_stmt_wait(
    tokens: &Vec<Token>,
    j: usize,
    devices: &DeviceTable,
    tabdepth: usize,
    ifelse: bool,
) -> (r: Result<(Vec<Operation>, usize), ParseError>)
    requires
        j < tokens@.len(),
        tabdepth < usize::MAX,
    ensures
        ops_res_view(r) == spec_stmt_wait(
            tokens_view(tokens@),
            j as int,
            devices@,
            tabdepth as nat,
            ifelse,
        ),
        r matches Ok(p) ==> j < p.1 <= tokens@.len(),
    decreases tokens@.len() - j, 2int,
{
    let n = tokens.len();
    if j + 1 >= n || !matches!(&tokens[j + 1], Token::Colon) {
        return Err(ParseError::ExpectedColonAfterWait);
    }
    if j + 2 >= n || !matches!(&tokens[j + 2], Token::Newline) {
        return Err(ParseError::ExpectedNewlineAfterColon);
    }
    let (op, j2) = match make_wait(tokens, j + 3, devices, tabdepth) {
        Ok(p) => p,
        Err(e) => {
            return Err(e);
        },
    };
    let (rest, k) = match make_statements(tokens, j2, devices, tabdepth, ifelse) {
        Ok(p) => p,
        Err(e) => {
            return Err(e);
        },
    };
    let mut ops = rest;
    let ghost rest_seq: Seq<Operation> = ops@;
    ops.insert(0, op);
    proof {
        assert(ops_view(ops@) =~= seq![op_view(op)] + ops_view(rest_seq));
    }
    Ok((ops, k))
}

/// Parses a statement line that begins with `if`.
fn make_stmt_if(
    tokens: &Vec<Token>,
    j: usize,
    devices: &DeviceTable,
    tabdepth: usize,
    ifelse: bool,
) -> (r: Result<(Vec<Operation>, usize), ParseError>)
    requires
        j < tokens@.len(),
        tabdepth < usize::MAX,
    ensures
        ops_res_view(r) == spec_stmt_if(
            tokens_view(tokens@),
            j as int,
            devices@,
            tabdepth as nat,
            ifelse,
        ),
        r matches Ok(p) ==> j < p.1 <= tokens@.len(),
    decreases tokens@.len() - j, 2int,
{
    let n = tokens.len();
    if j + 1 >= n || !matches!(&tokens[j + 1], Token::Colon) {
        return Err(ParseError::ExpectedColonAfterIf);
    }
    if j + 2 >= n || !matches!(&tokens[j + 2], Token::Newline) {
        return Err(ParseError::ExpectedNewlineAfterColon);
    }
    let (op, j2) = match make_if(tokens, j + 3, devices, tabdepth) {
        Ok(p) => p,
        Err(e) => {
            return Err(e);
        },
    };
    let (rest, k) = match make_statements(tokens, j2, devices, tabdepth, ifelse) {
        Ok(p) => p,
        Err(e) => {
            return Err(e);
        },
    };
    let mut ops = rest;
    let ghost rest_seq: Seq<Operation> = ops@;
    ops.insert(0, op);
    proof {
        assert(ops_view(ops@) =~= seq![op_view(op)] + ops_view(rest_seq));
    }
    Ok((ops, k))
}

/// Parses one block after its `block` keyword: the name, a newline, and
/// the statement list at depth one.
fn make_block(tokens: &Vec<Token>, start: usize, devices: &DeviceTable) -> (r: Result<
    ((String, Block), usize),
    ParseError,
>)
    requires
        start <= tokens@.len(),
    ensures
        block_res_view(r) == spec_block(tokens_view(tokens@), start as int, devices@),
        r matches Ok(p) ==> start < p.1 <= tokens@.len(),
    decreases tokens@.len() - start, 4int,
{
    let n = tokens.len();
    if start >= n {
        return Err(ParseError::ExpectedBlockName);
    }
    let block_name: String = match &tokens[start] {
        Token::Identifier(name) => name.clone(),
        _ => {
            return Err(ParseError::ExpectedBlockName);
        },
    };
    if start + 1 >= n || !matches!(&tokens[start + 1], Token::Newline) {
        return Err(ParseError::ExpectedNewlineAfterBlockName);
    }
    let (ops, j) = match make_statements(tokens, start + 2, devices, 1, false) {
        Ok(p) => p,
        Err(e) => {
            return Err(e);
        },
    };
    Ok(((block_name, Block { ops }), j))
}

/// Parses the block section: blocks framed by `block`/`endblock` and a
/// trailing newline, with further blank lines swallowed, until the input
/// ends.  Yields the named blocks in source order.
fn make_blocks(tokens: &Vec<Token>, start: usize, devices: &DeviceTable) -> (r: Result<
    (Vec<(String, Block)>, usize),
    ParseError,
>)
    requires
        start <= tokens@.len(),
    ensures
        blocks_res_view(r) == spec_blocks(tokens_view(tokens@), start as int, devices@),
        r matches Ok(p) ==> start <= p.1 <= tokens@.len(),
    decreases tokens@.len() - start, 5int,
{
    let n = tokens.len();
    if start >= n {
        let empty: Vec<(String, Block)> = Vec::new();
        proof {
            assert(blocks_view(empty@) =~= Seq::<(Seq<char>, SpecBlock)>::empty());
        }
        return Ok((empty, start));
    }
    if !matches!(&tokens[start], Token::StartBlock) {
        return Err(ParseError::ExpectedBlockDecl);
    }
    let ((name, block), j) = match make_block(tokens, start + 1, devices) {
        Ok(p) => p,
        Err(e) => {
            return Err(e);
        },
    };
    if j >= n || !matches!(&tokens[j], Token::EndBlock) {
        return Err(ParseError::ExpectedEndblock);
    }
    if j + 1 >= n || !matches!(&tokens[j + 1], Token::Newline) {
        return Err(ParseError::ExpectedNewlineAfterEndblock);
    }
    let j2 = skip_newlines(tokens, j + 2);
    let (rest, k) = match make_blocks(tokens, j2, devices) {
        Ok(p) => p,
        Err(e) => {
            return Err(e);
        },
    };
    let mut blocks = rest;
    let ghost rest_seq: Seq<(String, Block)> = blocks@;
    blocks.insert(0, (name, block));
    proof {
        assert(blocks_view(blocks@) =~= seq![(blocks@[0].0@, blocks@[0].1@)] + blocks_view(
            rest_seq,
        ));
    }
    Ok((blocks, k))
}

/// Parses a whole program: the device section, the separating newline,
/// and at least one block.  Returns the AST, or the error of the first
/// violated expectation; the result is exactly what [`spec_make_ast`]
/// says for this token sequence, so parsing is deterministic and every
/// produced AST is well formed ([`crate::laws`]).
pub fn make_ast(tokens: &Vec<Token>) -> (r: Result<AST, ParseError>)
    ensures
        ast_res_view(r) == spec_make_ast(tokens_view(tokens@)),
        r matches Ok(ast) ==> crate::ast::ast_wf(ast@),
{
    proof {
        crate::laws::lemma_parse_result_wf(tokens_view(tokens@));
    }
    let (devices, i) = match make_devices(tokens, 0) {
        Ok(p) => p,
        Err(e) => {
            return Err(e);
        },
    };
    if i >= tokens.len() || !matches!(&tokens[i], Token::Newline) {
        return Err(ParseError::ExpectedNewlineAfterDevices);
    }
    let (blist, _j) = match make_blocks(tokens, i + 1, &devices) {
        Ok(p) => p,
        Err(e) => {
            return Err(e);
        },
    };
    if blist.len() == 0 {
        return Err(ParseError::NoBlocks);
    }
    let first_block_name: String = blist[0].0.clone();
    let blocks = BlockTable { entries: blist };
    Ok(AST { first_block_name, devices, blocks })
}

} // verus!
