//! The abstract syntax tree: devices, blocks, operations and condition
//! trees, together with their mathematical models.
//!
//! Every parse-time entity is created once and never mutated afterwards.
//! The device table and the block table are name-keyed mappings in which a
//! later entry for a name replaces an earlier one.

use vstd::prelude::*;

use crate::num::{Num, SpecNum};

verus! {

broadcast use
    vstd::std_specs::vec::group_vec_axioms,
    vstd::seq::axiom_seq_index_decreases,
;

/// One end of a device's declared value range.  Declared ranges currently
/// always span the whole value space (explicit range syntax is reserved
/// for future extension), so a bound is one of the two extreme ends.
#[derive(Debug, Clone, Copy, PartialEq, Eq, Structural)]
pub enum Bound {
    /// Below every numeric literal.
    Lowest,
    /// Above every numeric literal.
    Highest,
}

/// Whether a numeral lies within the declared bounds `[min, max]`.
pub open spec fn spec_in_range(value: SpecNum, min: Bound, max: Bound) -> bool {
    &&& match min {
        Bound::Lowest => true,
        Bound::Highest => false,
    }
    &&& match max {
        Bound::Highest => true,
        Bound::Lowest => false,
    }
}

/// Decides [`spec_in_range`] for a literal against declared bounds.
pub fn in_range(value: &Num, min: Bound, max: Bound) -> (r: bool)
    ensures
        r == spec_in_range(value@, min, max),
{
    let lo_ok = match min {
        Bound::Lowest => true,
        Bound::Highest => false,
    };
    let hi_ok = match max {
        Bound::Highest => true,
        Bound::Lowest => false,
    };
    lo_ok && hi_ok
}

/// A writable output device with its declared range.
#[derive(Debug, Clone, PartialEq, Eq)]
pub struct Actuator {
    pub name: String,
    pub min: Bound,
    pub max: Bound,
}

/// A readable input device with its declared range.
#[derive(Debug, Clone, PartialEq, Eq)]
pub struct Sensor {
    pub name: String,
    pub min: Bound,
    pub max: Bound,
}

/// A declared device: an actuator or a sensor.
#[derive(Debug, PartialEq, Eq)]
pub enum Device {
    Actuator(Actuator),
    Sensor(Sensor),
}

/// Mathematical model of [`Actuator`].
pub ghost struct SpecActuator {
    pub name: Seq<char>,
    pub min: Bound,
    pub max: Bound,
}

/// Mathematical model of [`Sensor`].
pub ghost struct SpecSensor {
    pub name: Seq<char>,
    pub min: Bound,
    pub max: Bound,
}

/// Mathematical model of [`Device`].
pub ghost enum SpecDevice {
    Actuator(SpecActuator),
    Sensor(SpecSensor),
}

impl View for Actuator {
    type V = SpecActuator;

    open spec fn view(&self) -> SpecActuator {
        SpecActuator { name: self.name@, min: self.min, max: self.max }
    }
}

impl View for Sensor {
    type V = SpecSensor;

    open spec fn view(&self) -> SpecSensor {
        SpecSensor { name: self.name@, min: self.min, max: self.max }
    }
}

impl View for Device {
    type V = SpecDevice;

    open spec fn view(&self) -> SpecDevice {
        match self {
            Device::Actuator(a) => SpecDevice::Actuator(a@),
            Device::Sensor(s) => SpecDevice::Sensor(s@),
        }
    }
}

/// The name a device was declared under.
pub open spec fn spec_device_name(d: SpecDevice) -> Seq<char> {
    match d {
        SpecDevice::Actuator(a) => a.name,
        SpecDevice::Sensor(s) => s.name,
    }
}

impl Device {
    /// The name this device was declared under.
    pub fn name(&self) -> (r: &String)
        ensures
            r@ == spec_device_name(self@),
    {
        match self {
            Device::Actuator(a) => &a.name,
            Device::Sensor(s) => &s.name,
        }
    }
}

/// The five comparison operators a base condition can use.
#[derive(Debug, Clone, Copy, PartialEq, Eq, Structural)]
pub enum Comparator {
    LT,
    LTEQ,
    EQ,
    GT,
    GTEQ,
}

/// Whether an aggregate condition requires one or all of its parts.
#[derive(Debug, Clone, Copy, PartialEq, Eq, Structural)]
pub enum ConditionSetType {
    Any,
    All,
}

/// A condition tree: a base comparison of a sensor against a literal, or
/// an `all`/`any` aggregate over a non-empty list of sub-conditions.
#[derive(Debug, PartialEq, Eq)]
pub enum Condition {
    Base(Sensor, Comparator, Num),
    All(Vec<Condition>),
    Any(Vec<Condition>),
}

/// Mathematical model of [`Condition`].
pub ghost enum SpecCond {
    Base(SpecSensor, Comparator, SpecNum),
    All(Seq<SpecCond>),
    Any(Seq<SpecCond>),
}

/// The model of a condition tree.
pub open spec fn cond_view(c: Condition) -> SpecCond
    decreases c,
{
    match c {
        Condition::Base(s, cmp, n) => SpecCond::Base(s@, cmp, n@),
        Condition::All(cs) => SpecCond::All(conds_view(cs@)),
        Condition::Any(cs) => SpecCond::Any(conds_view(cs@)),
    }
}

/// The models of a sequence of condition trees.
pub open spec fn conds_view(cs: Seq<Condition>) -> Seq<SpecCond>
    decreases cs,
{
    if cs.len() == 0 {
        Seq::empty()
    } else {
        conds_view(cs.drop_last()).push(cond_view(cs.last()))
    }
}

/// A sequence of condition trees models its trees pointwise.
pub broadcast proof fn lemma_conds_view(cs: Seq<Condition>)
    ensures
        (#[trigger] conds_view(cs)).len() == cs.len(),
        forall|i: int| 0 <= i < cs.len() ==> conds_view(cs)[i] == cond_view(cs[i]),
    decreases cs.len(),
{
    if cs.len() > 0 {
        lemma_conds_view(cs.drop_last());
    }
}

impl View for Condition {
    type V = SpecCond;

    open spec fn view(&self) -> SpecCond {
        cond_view(*self)
    }
}

/// An operation inside a block, in the order the block runs them.
#[derive(Debug, PartialEq, Eq)]
pub enum Operation {
    /// Drive an actuator to a literal value within its declared range.
    SetOp { actuator: Actuator, value: Num },
    /// Poll until the condition holds.
    Wait { condition: Condition },
    /// Run one of two branches; the `else` branch is absent when the
    /// source has no `else` clause at the matching depth.
    IfElse {
        if_condition: Condition,
        if_actions: Vec<Operation>,
        else_actions: Option<Vec<Operation>>,
    },
    /// Continue at the named block.
    Goto { dest: String },
}

/// Mathematical model of [`Operation`].
pub ghost enum SpecOp {
    SetOp { actuator: SpecActuator, value: SpecNum },
    Wait { condition: SpecCond },
    IfElse {
        if_condition: SpecCond,
        if_actions: Seq<SpecOp>,
        else_actions: Option<Seq<SpecOp>>,
    },
    Goto { dest: Seq<char> },
}

/// The model of an operation.
pub open spec fn op_view(op: Operation) -> SpecOp
    decreases op,
{
    match op {
        Operation::SetOp { actuator, value } => SpecOp::SetOp {
            actuator: actuator@,
            value: value@,
        },
        Operation::Wait { condition } => SpecOp::Wait { condition: cond_view(condition) },
        Operation::IfElse { if_condition, if_actions, else_actions } => SpecOp::IfElse {
            if_condition: cond_view(if_condition),
            if_actions: ops_view(if_actions@),
            else_actions: match else_actions {
                Some(e) => Some(ops_view(e@)),
                None => None,
            },
        },
        Operation::Goto { dest } => SpecOp::Goto { dest: dest@ },
    }
}

/// The models of a sequence of operations.
pub open spec fn ops_view(ops: Seq<Operation>) -> Seq<SpecOp>
    decreases ops,
{
    if ops.len() == 0 {
        Seq::empty()
    } else {
        ops_view(ops.drop_last()).push(op_view(ops.last()))
    }
}

/// A sequence of operations models its operations pointwise.
pub broadcast proof fn lemma_ops_view(ops: Seq<Operation>)
    ensures
        (#[trigger] ops_view(ops)).len() == ops.len(),
        forall|i: int| 0 <= i < ops.len() ==> ops_view(ops)[i] == op_view(ops[i]),
    decreases ops.len(),
{
    if ops.len() > 0 {
        lemma_ops_view(ops.drop_last());
    }
}

impl View for Operation {
    type V = SpecOp;

    open spec fn view(&self) -> SpecOp {
        op_view(*self)
    }
}

/// A block body: its operations in source order.
#[derive(Debug, PartialEq, Eq)]
pub struct Block {
    pub ops: Vec<Operation>,
}

/// Mathematical model of [`Block`].
pub ghost struct SpecBlock {
    pub ops: Seq<SpecOp>,
}

impl View for Block {
    type V = SpecBlock;

    open spec fn view(&self) -> SpecBlock {
        SpecBlock { ops: ops_view(self.ops@) }
    }
}

/// The device table: a name-to-device mapping built from the declaration
/// prefix of the source.  A later declaration of a name replaces an
/// earlier one.
#[derive(Debug, PartialEq, Eq)]
pub struct DeviceTable {
    pub entries: Vec<Device>,
}

/// The mapping a sequence of devices stands for: each device keyed by its
/// name, later entries overriding earlier ones.
pub open spec fn device_map(es: Seq<Device>) -> Map<Seq<char>, SpecDevice>
    decreases es.len(),
{
    if es.len() == 0 {
        Map::empty()
    } else {
        device_map(es.drop_last()).insert(spec_device_name(es.last()@), es.last()@)
    }
}

impl View for DeviceTable {
    type V = Map<Seq<char>, SpecDevice>;

    open spec fn view(&self) -> Map<Seq<char>, SpecDevice> {
        device_map(self.entries@)
    }
}

proof fn lemma_device_map_absent(es: Seq<Device>, n: Seq<char>)
    requires
        forall|k: int| 0 <= k < es.len() ==> spec_device_name(#[trigger] es[k]@) != n,
    ensures
        !device_map(es).contains_key(n),
    decreases es.len(),
{
    if es.len() > 0 {
        assert(es.last() == es[es.len() - 1]);
        assert(forall|k: int|
            0 <= k < es.drop_last().len() ==> #[trigger] es.drop_last()[k] == es[k]);
        lemma_device_map_absent(es.drop_last(), n);
    }
}

proof fn lemma_device_map_found(es: Seq<Device>, n: Seq<char>, k: int)
    requires
        0 <= k < es.len(),
        spec_device_name(es[k]@) == n,
        forall|j: int| k < j < es.len() ==> spec_device_name(#[trigger] es[j]@) != n,
    ensures
        device_map(es).contains_key(n),
        device_map(es)[n] == es[k]@,
    decreases es.len(),
{
    assert(es.last() == es[es.len() - 1]);
    if k == es.len() - 1 {
    } else {
        assert(forall|j: int|
            0 <= j < es.drop_last().len() ==> #[trigger] es.drop_last()[j] == es[j]);
        lemma_device_map_found(es.drop_last(), n, k);
    }
}

impl DeviceTable {
    /// An empty device table.
    pub fn new() -> (r: DeviceTable)
        ensures
            r@ == Map::<Seq<char>, SpecDevice>::empty(),
            r.entries@.len() == 0,
    {
        DeviceTable { entries: Vec::new() }
    }

    /// Adds a device, replacing any earlier device of the same name.
    pub fn insert(&mut self, d: Device)
        ensures
            final(self)@ == old(self)@.insert(spec_device_name(d@), d@),
    {
        self.entries.push(d);
        proof {
            assert(self.entries@.drop_last() =~= old(self).entries@);
        }
    }

    /// Looks a device up by name.
    pub fn get(&self, name: &String) -> (r: Option<&Device>)
        ensures
            match r {
                Some(d) => self@.contains_key(name@) && self@[name@] == d@,
                None => !self@.contains_key(name@),
            },
    {
        let mut i: usize = self.entries.len();
        while i > 0
            invariant
                i <= self.entries@.len(),
                forall|k: int|
                    i <= k < self.entries@.len() ==> spec_device_name(
                        #[trigger] self.entries@[k]@,
                    ) != name@,
            decreases i,
        {
            i = i - 1;
            let entry_name: &String = self.entries[i].name();
            if entry_name.eq(name) {
                proof {
                    lemma_device_map_found(self.entries@, name@, i as int);
                }
                return Some(&self.entries[i]);
            }
        }
        proof {
            lemma_device_map_absent(self.entries@, name@);
        }
        None
    }
}

/// The block table: the named blocks of the program.  A later block of the
/// same name replaces an earlier one; source order is kept in `entries`.
#[derive(Debug, PartialEq, Eq)]
pub struct BlockTable {
    pub entries: Vec<(String, Block)>,
}

/// The mapping a sequence of named blocks stands for.
pub open spec fn block_map(es: Seq<(String, Block)>) -> Map<Seq<char>, SpecBlock>
    decreases es.len(),
{
    if es.len() == 0 {
        Map::empty()
    } else {
        block_map(es.drop_last()).insert(es.last().0@, es.last().1@)
    }
}

impl View for BlockTable {
    type V = Map<Seq<char>, SpecBlock>;

    open spec fn view(&self) -> Map<Seq<char>, SpecBlock> {
        block_map(self.entries@)
    }
}

impl BlockTable {
    /// An empty block table.
    pub fn new() -> (r: BlockTable)
        ensures
            r@ == Map::<Seq<char>, SpecBlock>::empty(),
            r.entries@.len() == 0,
    {
        BlockTable { entries: Vec::new() }
    }

    /// Adds a named block, replacing any earlier block of the same name.
    pub fn insert(&mut self, name: String, block: Block)
        ensures
            final(self)@ == old(self)@.insert(name@, block@),
            final(self).entries@ == old(self).entries@.push((name, block)),
    {
        self.entries.push((name, block));
        proof {
            assert(self.entries@.drop_last() =~= old(self).entries@);
        }
    }
}

/// The parse result: the entry block's name, the device table and the
/// block table.
#[derive(Debug, PartialEq, Eq)]
pub struct AST {
    pub first_block_name: String,
    pub devices: DeviceTable,
    pub blocks: BlockTable,
}

/// Mathematical model of [`AST`].
pub ghost struct SpecAst {
    pub first_block_name: Seq<char>,
    pub devices: Map<Seq<char>, SpecDevice>,
    pub blocks: Map<Seq<char>, SpecBlock>,
}

impl View for AST {
    type V = SpecAst;

    open spec fn view(&self) -> SpecAst {
        SpecAst {
            first_block_name: self.first_block_name@,
            devices: self.devices@,
            blocks: self.blocks@,
        }
    }
}

/// The models of a sequence of devices, pointwise.
pub open spec fn devs_view(es: Seq<Device>) -> Seq<SpecDevice> {
    Seq::new(es.len(), |i: int| es[i]@)
}

/// The models of a sequence of named blocks, pointwise.
pub open spec fn blocks_view(es: Seq<(String, Block)>) -> Seq<(Seq<char>, SpecBlock)> {
    Seq::new(es.len(), |i: int| (es[i].0@, es[i].1@))
}

/// The mapping a model device list stands for: each device keyed by its
/// name, later entries overriding earlier ones.
pub open spec fn spec_devices_map(l: Seq<SpecDevice>) -> Map<Seq<char>, SpecDevice>
    decreases l.len(),
{
    if l.len() == 0 {
        Map::empty()
    } else {
        spec_devices_map(l.drop_last()).insert(spec_device_name(l.last()), l.last())
    }
}

/// The mapping a model block list stands for.
pub open spec fn spec_blocks_map(l: Seq<(Seq<char>, SpecBlock)>) -> Map<Seq<char>, SpecBlock>
    decreases l.len(),
{
    if l.len() == 0 {
        Map::empty()
    } else {
        spec_blocks_map(l.drop_last()).insert(l.last().0, l.last().1)
    }
}

/// A device table whose entries model a device list stands for the same
/// mapping as that list.
pub broadcast proof fn lemma_device_map_is_spec_map(es: Seq<Device>)
    ensures
        #[trigger] device_map(es) == spec_devices_map(devs_view(es)),
    decreases es.len(),
{
    if es.len() > 0 {
        lemma_device_map_is_spec_map(es.drop_last());
        assert(devs_view(es).drop_last() =~= devs_view(es.drop_last()));
        assert(devs_view(es).last() == es.last()@);
    }
}

/// A block table whose entries model a block list stands for the same
/// mapping as that list.
pub broadcast proof fn lemma_block_map_is_spec_map(es: Seq<(String, Block)>)
    ensures
        #[trigger] block_map(es) == spec_blocks_map(blocks_view(es)),
    decreases es.len(),
{
    if es.len() > 0 {
        lemma_block_map_is_spec_map(es.drop_last());
        assert(blocks_view(es).drop_last() =~= blocks_view(es.drop_last()));
        assert(blocks_view(es).last() == (es.last().0@, es.last().1@));
    }
}

/// Conditions are well formed against a device table: every base
/// comparison names a declared sensor (the resolved copy agrees with the
/// table) and every `all`/`any` aggregate holds at least one
/// sub-condition.
pub open spec fn cond_wf(c: SpecCond, devs: Map<Seq<char>, SpecDevice>) -> bool
    decreases c,
{
    match c {
        SpecCond::Base(sensor, _cmp, _value) => devs.contains_key(sensor.name)
            && devs[sensor.name] == SpecDevice::Sensor(sensor),
        SpecCond::All(cs) => cs.len() >= 1 && forall|i: int|
            0 <= i < cs.len() ==> cond_wf(#[trigger] cs[i], devs),
        SpecCond::Any(cs) => cs.len() >= 1 && forall|i: int|
            0 <= i < cs.len() ==> cond_wf(#[trigger] cs[i], devs),
    }
}

/// Operations are well formed against a device table: every `set` names a
/// declared actuator (the resolved copy agrees with the table) and its
/// value lies within the actuator's declared range; every condition tree
/// is well formed; branch bodies are well formed throughout.
pub open spec fn op_wf(op: SpecOp, devs: Map<Seq<char>, SpecDevice>) -> bool
    decreases op,
{
    match op {
        SpecOp::SetOp { actuator, value } => devs.contains_key(actuator.name)
            && devs[actuator.name] == SpecDevice::Actuator(actuator) && spec_in_range(
            value,
            actuator.min,
            actuator.max,
        ),
        SpecOp::Wait { condition } => cond_wf(condition, devs),
        SpecOp::IfElse { if_condition, if_actions, else_actions } => cond_wf(if_condition, devs)
            && (forall|i: int| 0 <= i < if_actions.len() ==> op_wf(#[trigger] if_actions[i], devs))
            && match else_actions {
            Some(e) => forall|i: int| 0 <= i < e.len() ==> op_wf(#[trigger] e[i], devs),
            None => true,
        },
        SpecOp::Goto { dest: _ } => true,
    }
}

/// All operations of a sequence are well formed.
pub open spec fn ops_wf(ops: Seq<SpecOp>, devs: Map<Seq<char>, SpecDevice>) -> bool {
    forall|i: int| 0 <= i < ops.len() ==> op_wf(#[trigger] ops[i], devs)
}

/// A device table keys every device by its own name.
pub open spec fn devices_keyed_by_name(devs: Map<Seq<char>, SpecDevice>) -> bool {
    forall|n: Seq<char>| devs.contains_key(n) ==> spec_device_name(#[trigger] devs[n]) == n
}

/// A whole parse result is well formed: every device sits in the table
/// under its own name, and every block's operations are well formed
/// against the device table.
pub open spec fn ast_wf(ast: SpecAst) -> bool {
    &&& devices_keyed_by_name(ast.devices)
    &&& forall|n: Seq<char>|
        ast.blocks.contains_key(n) ==> ops_wf((#[trigger] ast.blocks[n]).ops, ast.devices)
}

} // verus!
