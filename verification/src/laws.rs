//! Laws of the parser, proved from the spec-level parse functions: every
//! produced AST is well formed, parsing is deterministic, indentation is
//! exact, and empty `any`/`all` aggregates are always rejected.

use vstd::prelude::*;

use crate::ast::{
    ast_wf, cond_wf, devices_keyed_by_name, op_wf, ops_wf, spec_blocks_map, spec_devices_map,
    SpecBlock, SpecCond, SpecDevice, SpecOp,
};
use crate::parser::{
    spec_block, spec_blocks, spec_cond_list, spec_condition, spec_consume_tabs, spec_check_tabs,
    spec_devices, spec_goto, spec_if, spec_make_ast, spec_set, spec_statements, spec_stmt_goto,
    spec_stmt_if, spec_stmt_set, spec_stmt_wait, spec_wait, lemma_consume_tabs, ParseError,
};
use crate::token::SpecToken;

verus! {

/// A device-list mapping keys every device by its own name.
proof fn lemma_devices_map_keyed(l: Seq<SpecDevice>)
    ensures
        devices_keyed_by_name(spec_devices_map(l)),
    decreases l.len(),
{
    if l.len() > 0 {
        lemma_devices_map_keyed(l.drop_last());
    }
}

/// Every value of a block-list mapping is the block of some list entry
/// under that entry's name.
proof fn lemma_blocks_map_values(l: Seq<(Seq<char>, SpecBlock)>)
    ensures
        forall|n: Seq<char>|
            spec_blocks_map(l).contains_key(n) ==> exists|m: int|
                0 <= m < l.len() && #[trigger] l[m] == (n, spec_blocks_map(l)[n]),
    decreases l.len(),
{
    if l.len() > 0 {
        lemma_blocks_map_values(l.drop_last());
        assert forall|n: Seq<char>| spec_blocks_map(l).contains_key(n) implies exists|m: int|
            0 <= m < l.len() && #[trigger] l[m] == (n, spec_blocks_map(l)[n]) by {
            if n == l.last().0 {
                assert(l[l.len() - 1] == (n, spec_blocks_map(l)[n]));
            } else {
                let m = choose|m: int|
                    0 <= m < l.drop_last().len() && #[trigger] l.drop_last()[m] == (
                    n,
                    spec_blocks_map(l.drop_last())[n],
                );
                assert(l[m] == (n, spec_blocks_map(l)[n]));
            }
        }
    }
}

proof fn lemma_condition_wf(
    toks: Seq<SpecToken>,
    i: int,
    devs: Map<Seq<char>, SpecDevice>,
    d: nat,
)
    requires
        devices_keyed_by_name(devs),
    ensures
        spec_condition(toks, i, devs, d) matches Ok(p) ==> cond_wf(p.0, devs),
    decreases toks.len() - i, 0int,
{
    lemma_consume_tabs(toks, i, d as int);
    match spec_consume_tabs(toks, i, d as int) {
        Ok(j) => {
            if j >= i && i + 4 <= j + 4 <= toks.len() {
                lemma_cond_list_wf(toks, j + 4, devs, d);
            }
        },
        Err(_) => {},
    }
}

proof fn lemma_cond_list_wf(
    toks: Seq<SpecToken>,
    i: int,
    devs: Map<Seq<char>, SpecDevice>,
    d: nat,
)
    requires
        devices_keyed_by_name(devs),
    ensures
        spec_cond_list(toks, i, devs, d) matches Ok(p) ==> forall|m: int|
            0 <= m < p.0.len() ==> cond_wf(#[trigger] p.0[m], devs),
    decreases toks.len() - i, 1int,
{
    if i + d + 1 < toks.len() && toks[i + d + 1] is ConditionStart {
        lemma_condition_wf(toks, i, devs, d + 1);
        match spec_condition(toks, i, devs, d + 1) {
            Ok((c, j)) => {
                if i < j <= toks.len() {
                    lemma_cond_list_wf(toks, j, devs, d);
                }
            },
            Err(_) => {},
        }
    }
}

proof fn lemma_wait_wf(toks: Seq<SpecToken>, i: int, devs: Map<Seq<char>, SpecDevice>, d: nat)
    requires
        devices_keyed_by_name(devs),
    ensures
        spec_wait(toks, i, devs, d) matches Ok(p) ==> op_wf(p.0, devs),
    decreases toks.len() - i, 1int,
{
    lemma_condition_wf(toks, i, devs, d + 1);
}

proof fn lemma_if_wf(toks: Seq<SpecToken>, i: int, devs: Map<Seq<char>, SpecDevice>, d: nat)
    requires
        devices_keyed_by_name(devs),
    ensures
        spec_if(toks, i, devs, d) matches Ok(p) ==> op_wf(p.0, devs),
    decreases toks.len() - i, 2int,
{
    lemma_condition_wf(toks, i, devs, d + 1);
    match spec_condition(toks, i, devs, d + 1) {
        Ok((cond, j)) => {
            if i < j <= toks.len() {
                lemma_statements_wf(toks, j, devs, (d + 1) as nat, true);
                match spec_statements(toks, j, devs, d + 1, true) {
                    Ok((if_actions, j2)) => {
                        if j <= j2 <= toks.len() && j2 + d + 3 <= toks.len() && j2 + d + 3 > i {
                            lemma_statements_wf(toks, j2 + d + 3, devs, (d + 1) as nat, false);
                        }
                    },
                    Err(_) => {},
                }
            }
        },
        Err(_) => {},
    }
}

proof fn lemma_stmt_set_wf(
    toks: Seq<SpecToken>,
    j: int,
    devs: Map<Seq<char>, SpecDevice>,
    d: nat,
    ifelse: bool,
)
    requires
        devices_keyed_by_name(devs),
    ensures
        spec_stmt_set(toks, j, devs, d, ifelse) matches Ok(p) ==> ops_wf(p.0, devs),
    decreases toks.len() - j, 2int,
{
    match spec_set(toks, j + 1, devs) {
        Ok((op, j2)) => {
            if j < j2 < toks.len() {
                lemma_statements_wf(toks, j2 + 1, devs, d, ifelse);
            }
        },
        Err(_) => {},
    }
}

proof fn lemma_stmt_goto_wf(
    toks: Seq<SpecToken>,
    j: int,
    devs: Map<Seq<char>, SpecDevice>,
    d: nat,
    ifelse: bool,
)
    requires
        devices_keyed_by_name(devs),
    ensures
        spec_stmt_goto(toks, j, devs, d, ifelse) matches Ok(p) ==> ops_wf(p.0, devs),
    decreases toks.len() - j, 2int,
{
    match spec_goto(toks, j + 1) {
        Ok((op, j2)) => {
            if j < j2 < toks.len() {
                lemma_statements_wf(toks, j2 + 1, devs, d, ifelse);
            }
        },
        Err(_) => {},
    }
}

proof fn lemma_stmt_wait_wf(
    toks: Seq<SpecToken>,
    j: int,
    devs: Map<Seq<char>, SpecDevice>,
    d: nat,
    ifelse: bool,
)
    requires
        devices_keyed_by_name(devs),
    ensures
        spec_stmt_wait(toks, j, devs, d, ifelse) matches Ok(p) ==> ops_wf(p.0, devs),
    decreases toks.len() - j, 2int,
{
    if j + 3 <= toks.len() && j + 3 > j {
        lemma_wait_wf(toks, j + 3, devs, d);
        match spec_wait(toks, j + 3, devs, d) {
            Ok((op, j2)) => {
                if j < j2 <= toks.len() {
                    lemma_statements_wf(toks, j2, devs, d, ifelse);
                }
            },
            Err(_) => {},
        }
    }
}

proof fn lemma_stmt_if_wf(
    toks: Seq<SpecToken>,
    j: int,
    devs: Map<Seq<char>, SpecDevice>,
    d: nat,
    ifelse: bool,
)
    requires
        devices_keyed_by_name(devs),
    ensures
        spec_stmt_if(toks, j, devs, d, ifelse) matches Ok(p) ==> ops_wf(p.0, devs),
    decreases toks.len() - j, 2int,
{
    if j + 3 <= toks.len() {
        lemma_if_wf(toks, j + 3, devs, d);
        match spec_if(toks, j + 3, devs, d) {
            Ok((op, j2)) => {
                if j < j2 <= toks.len() {
                    lemma_statements_wf(toks, j2, devs, d, ifelse);
                }
            },
            Err(_) => {},
        }
    }
}

proof fn lemma_statements_wf(
    toks: Seq<SpecToken>,
    i: int,
    devs: Map<Seq<char>, SpecDevice>,
    d: nat,
    ifelse: bool,
)
    requires
        devices_keyed_by_name(devs),
    ensures
        spec_statements(toks, i, devs, d, ifelse) matches Ok(p) ==> ops_wf(p.0, devs),
    decreases toks.len() - i, 3int,
{
    if 0 <= i && i < toks.len() {
        if toks[i] is Newline {
            lemma_statements_wf(toks, i + 1, devs, d, ifelse);
        } else {
            lemma_consume_tabs(toks, i, d as int);
            match spec_consume_tabs(toks, i, d as int) {
                Ok(j) => {
                    if i <= j && j < toks.len() {
                        match toks[j] {
                            SpecToken::SetKw => lemma_stmt_set_wf(toks, j, devs, d, ifelse),
                            SpecToken::Goto => lemma_stmt_goto_wf(toks, j, devs, d, ifelse),
                            SpecToken::Wait => lemma_stmt_wait_wf(toks, j, devs, d, ifelse),
                            SpecToken::If => lemma_stmt_if_wf(toks, j, devs, d, ifelse),
                            _ => {},
                        }
                    }
                },
                Err(_) => {},
            }
        }
    }
}

proof fn lemma_block_wf(toks: Seq<SpecToken>, i: int, devs: Map<Seq<char>, SpecDevice>)
    requires
        devices_keyed_by_name(devs),
    ensures
        spec_block(toks, i, devs) matches Ok(p) ==> ops_wf(p.0.1.ops, devs),
    decreases toks.len() - i, 4int,
{
    if 0 <= i && i + 2 <= toks.len() {
        lemma_statements_wf(toks, i + 2, devs, 1, false);
    }
}

proof fn lemma_blocks_wf(toks: Seq<SpecToken>, i: int, devs: Map<Seq<char>, SpecDevice>)
    requires
        devices_keyed_by_name(devs),
    ensures
        spec_blocks(toks, i, devs) matches Ok(p) ==> forall|m: int|
            0 <= m < p.0.len() ==> ops_wf((#[trigger] p.0[m]).1.ops, devs),
    decreases toks.len() - i, 5int,
{
    if 0 <= i && i < toks.len() && toks[i] is StartBlock {
        lemma_block_wf(toks, i + 1, devs);
        match spec_block(toks, i + 1, devs) {
            Ok(((name, b), j)) => {
                if i < j {
                    let j2 = crate::parser::spec_skip_newlines(toks, j + 2);
                    if j + 2 <= j2 <= toks.len() {
                        lemma_blocks_wf(toks, j2, devs);
                    }
                }
            },
            Err(_) => {},
        }
    }
}

/// Every AST the parser produces is well formed: each device sits in the
/// table under its own name; every `set` stores a declared actuator's
/// resolved copy together with a value inside that actuator's declared
/// range, never a clamped one; every base condition stores a declared
/// sensor's resolved copy; and every `any`/`all` aggregate in any
/// condition tree holds at least one sub-condition.
pub proof fn lemma_parse_result_wf(toks: Seq<SpecToken>)
    ensures
        spec_make_ast(toks) matches Ok(ast) ==> ast_wf(ast),
{
    match spec_devices(toks, 0) {
        Ok((devlist, i)) => {
            lemma_devices_map_keyed(devlist);
            let devs = spec_devices_map(devlist);
            if 0 <= i && i < toks.len() && toks[i] is Newline {
                lemma_blocks_wf(toks, i + 1, devs);
                match spec_blocks(toks, i + 1, devs) {
                    Ok((blist, _j)) => {
                        if blist.len() > 0 {
                            lemma_blocks_map_values(blist);
                            let bmap = spec_blocks_map(blist);
                            assert forall|n: Seq<char>| bmap.contains_key(n) implies ops_wf(
                                (#[trigger] bmap[n]).ops,
                                devs,
                            ) by {
                                let m = choose|m: int|
                                    0 <= m < blist.len() && #[trigger] blist[m] == (n, bmap[n]);
                                assert(ops_wf(blist[m].1.ops, devs));
                            }
                        }
                    },
                    Err(_) => {},
                }
            }
        },
        Err(_) => {},
    }
}

/// Parsing is deterministic: identical token sequences always yield a
/// structurally identical AST or the same error.
pub proof fn lemma_parse_deterministic(t1: Seq<SpecToken>, t2: Seq<SpecToken>)
    requires
        t1 == t2,
    ensures
        spec_make_ast(t1) == spec_make_ast(t2),
{
}

/// Lexing is deterministic: identical source text always yields the same
/// token stream.
pub proof fn lemma_lex_deterministic(s1: Seq<char>, s2: Seq<char>)
    requires
        s1 == s2,
    ensures
        crate::token::spec_tokenize(s1) == crate::token::spec_tokenize(s2),
{
}

/// A source with a well-formed device section, the separating newline,
/// and nothing after it declares no block, and parsing therefore fails:
/// at least one block is required.
pub proof fn lemma_no_blocks_rejected(toks: Seq<SpecToken>, devlist: Seq<SpecDevice>, i: int)
    requires
        spec_devices(toks, 0) == Ok::<(Seq<SpecDevice>, int), ParseError>((devlist, i)),
        0 <= i < toks.len(),
        toks[i] is Newline,
        i + 1 == toks.len(),
    ensures
        spec_make_ast(toks) is Err,
{
}

/// An `any` or `all` aggregate that the parser accepts always carries at
/// least one sub-condition; with zero sub-conditions the parse errors.
pub proof fn lemma_empty_aggregate_rejected(
    toks: Seq<SpecToken>,
    i: int,
    devs: Map<Seq<char>, SpecDevice>,
    d: nat,
)
    ensures
        spec_condition(toks, i, devs, d) matches Ok(p) ==> (p.0 matches SpecCond::Any(cs)
            ==> cs.len() >= 1),
        spec_condition(toks, i, devs, d) matches Ok(p) ==> (p.0 matches SpecCond::All(cs)
            ==> cs.len() >= 1),
{
}

proof fn lemma_check_tabs_holds(toks: Seq<SpecToken>, i: int, d: int)
    requires
        0 <= i,
        0 <= d,
        i + d <= toks.len(),
        forall|m: int| i <= m < i + d ==> (#[trigger] toks[m]) is Tab,
    ensures
        spec_check_tabs(toks, i, d),
    decreases d,
{
    if d > 0 {
        lemma_check_tabs_holds(toks, i + 1, d - 1);
    }
}

proof fn lemma_check_tabs_fails(toks: Seq<SpecToken>, i: int, d: int, k: int)
    requires
        0 <= i,
        0 <= k < d,
        i + k < toks.len(),
        forall|m: int| i <= m < i + k ==> (#[trigger] toks[m]) is Tab,
        !(toks[i + k] is Tab),
    ensures
        !spec_check_tabs(toks, i, d),
    decreases k,
{
    if k > 0 {
        lemma_check_tabs_fails(toks, i + 1, d - 1, k - 1);
    }
}

proof fn lemma_consume_tabs_holds(toks: Seq<SpecToken>, i: int, d: int)
    requires
        0 <= i,
        0 <= d,
        i + d <= toks.len(),
        forall|m: int| i <= m < i + d ==> (#[trigger] toks[m]) is Tab,
    ensures
        spec_consume_tabs(toks, i, d) == Ok::<int, ParseError>(i + d),
    decreases d,
{
    if d > 0 {
        lemma_consume_tabs_holds(toks, i + 1, d - 1);
    }
}

/// Whether a token opens a statement line (after its tabs).
pub open spec fn is_stmt_keyword(t: SpecToken) -> bool {
    t is SetKw || t is Goto || t is Wait || t is If
}

/// Indentation is exact: a statement line opening with `k` tabs and then
/// a statement keyword never parses as a statement at a different depth
/// `d`.  With fewer tabs than `d` the line closes the statement list
/// without being consumed; with more it is an "unexpected token" error.
pub proof fn lemma_indentation_exact(
    toks: Seq<SpecToken>,
    i: int,
    devs: Map<Seq<char>, SpecDevice>,
    d: nat,
    ifelse: bool,
    k: nat,
)
    requires
        0 <= i,
        i + k < toks.len(),
        forall|m: int| i <= m < i + k ==> (#[trigger] toks[m]) is Tab,
        is_stmt_keyword(toks[i + k]),
        k != d,
    ensures
        k < d ==> spec_statements(toks, i, devs, d, ifelse) == Ok::<
            (Seq<SpecOp>, int),
            ParseError,
        >((Seq::empty(), i)),
        k > d ==> spec_statements(toks, i, devs, d, ifelse) == Err::<
            (Seq<SpecOp>, int),
            ParseError,
        >(ParseError::UnexpectedToken),
{
    if k == 0 {
        assert(!(toks[i] is Tab));
    } else {
        assert(toks[i] is Tab);
    }
    if k < d {
        lemma_check_tabs_fails(toks, i, d as int, k as int);
    } else {
        assert(forall|m: int| i <= m < i + d ==> (#[trigger] toks[m]) is Tab);
        lemma_check_tabs_holds(toks, i, d as int);
        lemma_consume_tabs_holds(toks, i, d as int);
        assert(toks[i + d] is Tab);
    }
}

} // verus!
