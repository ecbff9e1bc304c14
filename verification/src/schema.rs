//! Table schemas, and the plan by which a schema is walked for an engine's schema
//! visitor.
//!
//! The engine's visitor builds its own representation of a schema through a few
//! callbacks: it creates field lists (each call hands back an id that the engine
//! chose) and appends fields to them. The walk is computed here as a sequence of
//! steps, in the order in which the callbacks are made. A step that names a field
//! list refers to it by its ordinal: the list created by the k-th `MakeFieldList`
//! step of the plan has ordinal k, and the root struct's list has ordinal 0.

use vstd::prelude::*;
use vstd::string::StrSliceExecFns;

verus! {

/// A primitive column type.
#[derive(Clone, Copy, Debug, PartialEq, Eq)]
pub enum PrimitiveType {
    String,
    Long,
    Integer,
    Short,
    Byte,
    Boolean,
    Binary,
    Date,
    Timestamp,
}

/// The type of a column.
#[derive(Debug, PartialEq, Eq)]
pub enum DataType {
    Primitive(PrimitiveType),
    Array(Box<DataType>),
    MapOf(Box<DataType>, Box<DataType>),
    Struct(Box<StructType>),
}

/// A named field of a struct.
#[derive(Debug, PartialEq, Eq)]
pub struct StructField {
    pub name: String,
    pub data_type: DataType,
    pub nullable: bool,
}

/// A struct type: an ordered list of fields. A table schema is a struct type.
#[derive(Debug, PartialEq, Eq)]
pub struct StructType {
    pub fields: Vec<StructField>,
}

/// One step of the walk over a schema, that is one callback of the visitor.
#[derive(Debug, PartialEq, Eq)]
pub enum SchemaVisitOp {
    /// Create a new field list, reserving room for `reserve` fields.
    MakeFieldList { reserve: usize },
    /// Append a struct field whose own fields are in list `child_list`.
    VisitStruct { sibling_list: usize, name: String, child_list: usize },
    /// Append a string field.
    VisitString { sibling_list: usize, name: String },
    /// Append a 32-bit integer field.
    VisitInteger { sibling_list: usize, name: String },
    /// Append a 64-bit integer field.
    VisitLong { sibling_list: usize, name: String },
    /// A field whose type the visitor cannot take; it is reported and skipped.
    Unsupported { name: String, data_type: DataType },
    /// A field whose name holds a NUL character, so that it cannot be handed to the
    /// engine as a C string: the walk stops here, with an error.
    InvalidName { name: String },
}

/// The steps that visit the fields `fields`, in order, appending them to list
/// `list`, where `next` is the ordinal of the next list to be created; also the
/// ordinal of the next list after these steps. A struct field first creates its
/// own list and fills it (depth first), then is appended to `list`.
pub open spec fn plan_fields(fields: Seq<StructField>, list: nat, next: nat) -> (
    Seq<SchemaVisitOp>,
    nat,
)
    decreases fields,
{
    if fields.len() == 0 {
        (Seq::empty(), next)
    } else {
        let f = fields[0];
        let (head, n1) = if f.name@.contains('\0') {
            (seq![SchemaVisitOp::InvalidName { name: f.name }], next)
        } else {
            match f.data_type {
                DataType::Primitive(PrimitiveType::Integer) => (
                    seq![SchemaVisitOp::VisitInteger { sibling_list: list as usize, name: f.name }],
                    next,
                ),
                DataType::Primitive(PrimitiveType::Long) => (
                    seq![SchemaVisitOp::VisitLong { sibling_list: list as usize, name: f.name }],
                    next,
                ),
                DataType::Primitive(PrimitiveType::String) => (
                    seq![SchemaVisitOp::VisitString { sibling_list: list as usize, name: f.name }],
                    next,
                ),
                DataType::Struct(s) => {
                    let (inner, n) = plan_fields(s.fields@, next, next + 1);
                    (
                        seq![SchemaVisitOp::MakeFieldList { reserve: s.fields.len() }] + inner
                            + seq![
                            SchemaVisitOp::VisitStruct {
                                sibling_list: list as usize,
                                name: f.name,
                                child_list: next as usize,
                            },
                        ],
                        n,
                    )
                },
                _ => (seq![SchemaVisitOp::Unsupported { name: f.name, data_type: f.data_type }], next),
            }
        };
        let (tail, n2) = plan_fields(fields.drop_first(), list, n1);
        (head + tail, n2)
    }
}

/// The whole walk over a schema: create the root list (ordinal 0), then visit the
/// schema's fields into it.
pub open spec fn plan_schema(schema: StructType) -> Seq<SchemaVisitOp> {
    seq![SchemaVisitOp::MakeFieldList { reserve: schema.fields.len() }] + plan_fields(
        schema.fields@,
        0,
        1,
    ).0
}

/// Whether a name holds a NUL character.
fn has_nul(name: &String) -> (b: bool)
    ensures
        b == name@.contains('\0'),
{
    let s = name.as_str();
    let len = s.unicode_len();
    let mut i: usize = 0;
    while i < len
        invariant
            len == s@.len(),
            s@ == name@,
            0 <= i <= len,
            forall|j: int| 0 <= j < i ==> s@[j] != '\0',
        decreases len - i,
    {
        if s.get_char(i) == '\0' {
            return true;
        }
        i = i + 1;
    }
    false
}

/// Appends to `ops` the steps that visit `fields` into list `list`, where `next` is
/// the ordinal of the next list to create; returns the next ordinal after them.
fn plan_fields_into(
    fields: Vec<StructField>,
    list: usize,
    next: usize,
    ops: &mut Vec<SchemaVisitOp>,
) -> (n: usize)
    requires
        list < next,
        next <= old(ops)@.len(),
    ensures
        final(ops)@ == old(ops)@ + plan_fields(fields@, list as nat, next as nat).0,
        n == plan_fields(fields@, list as nat, next as nat).1,
        next <= n <= final(ops)@.len(),
    decreases fields@,
{
    let ghost all = fields@;
    let ghost start = ops@;
    let mut remaining = fields;
    let mut cur: usize = next;
    let ghost mut done: Seq<SchemaVisitOp> = Seq::empty();
    let ghost mut k: int = 0;
    while remaining.len() > 0
        invariant
            list < next <= cur <= ops@.len(),
            ops@ == start + done,
            plan_fields(all, list as nat, next as nat) == (
                done + plan_fields(remaining@, list as nat, cur as nat).0,
                plan_fields(remaining@, list as nat, cur as nat).1,
            ),
            0 <= k <= all.len(),
            all == fields@,
            remaining@ == all.skip(k),
        decreases remaining.len(),
    {
        let ghost rest = remaining@;
        let ghost old_cur = cur;
        let f = remaining.remove(0);
        proof {
            assert(remaining@ =~= rest.drop_first());
            assert(f == rest[0]);
            assert(f == all[k]);
            assert(remaining@ =~= all.skip(k + 1));
        }
        let StructField { name, data_type, nullable: _ } = f;
        if has_nul(&name) {
            ops.push(SchemaVisitOp::InvalidName { name });
        } else {
            match data_type {
                DataType::Primitive(PrimitiveType::Integer) => {
                    ops.push(SchemaVisitOp::VisitInteger { sibling_list: list, name });
                },
                DataType::Primitive(PrimitiveType::Long) => {
                    ops.push(SchemaVisitOp::VisitLong { sibling_list: list, name });
                },
                DataType::Primitive(PrimitiveType::String) => {
                    ops.push(SchemaVisitOp::VisitString { sibling_list: list, name });
                },
                DataType::Struct(s) => {
                    let StructType { fields: child_fields } = *s;
                    proof {
                        assert(decreases_to!(all => child_fields@));
                    }
                    ops.push(SchemaVisitOp::MakeFieldList { reserve: child_fields.len() });
                    assert(ops@.len() == ops.len());
                    let child_list = cur;
                    let n = plan_fields_into(child_fields, child_list, child_list + 1, ops);
                    ops.push(
                        SchemaVisitOp::VisitStruct { sibling_list: list, name, child_list },
                    );
                    cur = n;
                },
                other => {
                    ops.push(SchemaVisitOp::Unsupported { name, data_type: other });
                },
            }
        }
        proof {
            let head = ops@.subrange((start.len() + done.len()) as int, ops@.len() as int);
            assert(ops@ =~= start + done + head);
            assert(plan_fields(rest, list as nat, old_cur as nat).0 =~= head + plan_fields(
                remaining@,
                list as nat,
                cur as nat,
            ).0);
            assert(done + head + plan_fields(remaining@, list as nat, cur as nat).0 =~= done + (head
                + plan_fields(remaining@, list as nat, cur as nat).0));
            done = done + head;
            k = k + 1;
        }
    }
    cur
}


/// Plans the walk over a schema for an engine's schema visitor: the steps, in the
/// order in which the visitor's callbacks are to be made. The root struct's list
/// is created by the first step.
pub fn schema_visit_plan(schema: StructType) -> (ops: Vec<SchemaVisitOp>)
    ensures
        ops@ == plan_schema(schema),
        well_formed_plan(ops@),
{
    let ghost whole = schema;
    let StructType { fields } = schema;
    let mut ops: Vec<SchemaVisitOp> = Vec::new();
    ops.push(SchemaVisitOp::MakeFieldList { reserve: fields.len() });
    plan_fields_into(fields, 0, 1, &mut ops);
    proof {
        lemma_plan_is_well_formed(whole);
    }
    ops
}

/// The number of field lists that the steps `ops` create.
pub open spec fn lists_created(ops: Seq<SchemaVisitOp>) -> nat
    decreases ops.len(),
{
    if ops.len() == 0 {
        0
    } else {
        lists_created(ops.drop_last()) + if ops.last() is MakeFieldList {
            1nat
        } else {
            0nat
        }
    }
}

/// Whether every list that the step `op` names is among the first `created` lists.
pub open spec fn names_created_lists(op: SchemaVisitOp, created: nat) -> bool {
    match op {
        SchemaVisitOp::MakeFieldList { .. } => true,
        SchemaVisitOp::VisitStruct { sibling_list, child_list, .. } => sibling_list < created
            && child_list < created,
        SchemaVisitOp::VisitString { sibling_list, .. } => sibling_list < created,
        SchemaVisitOp::VisitInteger { sibling_list, .. } => sibling_list < created,
        SchemaVisitOp::VisitLong { sibling_list, .. } => sibling_list < created,
        SchemaVisitOp::Unsupported { .. } => true,
        SchemaVisitOp::InvalidName { .. } => true,
    }
}

/// Whether each step of `ops` names only lists created before it, when `base`
/// lists exist before the first step.
pub open spec fn names_earlier_lists(ops: Seq<SchemaVisitOp>, base: nat) -> bool {
    forall|i: int|
        0 <= i < ops.len() ==> names_created_lists(
            #[trigger] ops[i],
            base + lists_created(ops.take(i)),
        )
}

/// A plan that can be carried out as it stands: it starts by creating the root
/// list, and every step names only lists that earlier steps created.
pub open spec fn well_formed_plan(ops: Seq<SchemaVisitOp>) -> bool {
    &&& ops.len() >= 1
    &&& ops[0] is MakeFieldList
    &&& names_earlier_lists(ops, 0)
}

proof fn lemma_lists_created_concat(a: Seq<SchemaVisitOp>, b: Seq<SchemaVisitOp>)
    ensures
        lists_created(a + b) == lists_created(a) + lists_created(b),
    decreases b.len(),
{
    if b.len() > 0 {
        assert((a + b).drop_last() =~= a + b.drop_last());
        lemma_lists_created_concat(a, b.drop_last());
    } else {
        assert(a + b =~= a);
    }
}

proof fn lemma_names_earlier_concat(a: Seq<SchemaVisitOp>, b: Seq<SchemaVisitOp>, base: nat)
    requires
        names_earlier_lists(a, base),
        names_earlier_lists(b, base + lists_created(a)),
    ensures
        names_earlier_lists(a + b, base),
{
    assert forall|i: int| 0 <= i < (a + b).len() implies names_created_lists(
        #[trigger] (a + b)[i],
        base + lists_created((a + b).take(i)),
    ) by {
        if i < a.len() {
            assert((a + b).take(i) =~= a.take(i));
            assert((a + b)[i] == a[i]);
        } else {
            let j = i - a.len();
            assert((a + b).take(i) =~= a + b.take(j));
            assert((a + b)[i] == b[j]);
            lemma_lists_created_concat(a, b.take(j));
        }
    }
}

proof fn lemma_single_step(op: SchemaVisitOp, base: nat)
    requires
        names_created_lists(op, base),
    ensures
        names_earlier_lists(seq![op], base),
        lists_created(seq![op]) == if op is MakeFieldList {
            1nat
        } else {
            0nat
        },
{
    assert(seq![op].take(0) =~= Seq::<SchemaVisitOp>::empty());
    assert(seq![op].drop_last() =~= Seq::<SchemaVisitOp>::empty());
    assert(lists_created(Seq::<SchemaVisitOp>::empty()) == 0);
    assert(seq![op].last() == op);
}

proof fn lemma_plan_fields_well_formed(fields: Seq<StructField>, list: nat, next: nat)
    requires
        list < next,
    ensures
        names_earlier_lists(plan_fields(fields, list, next).0, next),
        next + lists_created(plan_fields(fields, list, next).0) == plan_fields(
            fields,
            list,
            next,
        ).1,
    decreases fields,
{
    if fields.len() == 0 {
        assert(names_earlier_lists(Seq::<SchemaVisitOp>::empty(), next));
    } else {
        let f = fields[0];
        let (head, n1) = if f.name@.contains('\0') {
            (seq![SchemaVisitOp::InvalidName { name: f.name }], next)
        } else {
            match f.data_type {
                DataType::Primitive(PrimitiveType::Integer) => (
                    seq![SchemaVisitOp::VisitInteger { sibling_list: list as usize, name: f.name }],
                    next,
                ),
                DataType::Primitive(PrimitiveType::Long) => (
                    seq![SchemaVisitOp::VisitLong { sibling_list: list as usize, name: f.name }],
                    next,
                ),
                DataType::Primitive(PrimitiveType::String) => (
                    seq![SchemaVisitOp::VisitString { sibling_list: list as usize, name: f.name }],
                    next,
                ),
                DataType::Struct(s) => {
                    let (inner, n) = plan_fields(s.fields@, next, next + 1);
                    (
                        seq![SchemaVisitOp::MakeFieldList { reserve: s.fields.len() }] + inner
                            + seq![
                            SchemaVisitOp::VisitStruct {
                                sibling_list: list as usize,
                                name: f.name,
                                child_list: next as usize,
                            },
                        ],
                        n,
                    )
                },
                _ => (seq![SchemaVisitOp::Unsupported { name: f.name, data_type: f.data_type }], next),
            }
        };
        match f.data_type {
            DataType::Struct(s) if !f.name@.contains('\0') => {
                let (inner, n) = plan_fields(s.fields@, next, next + 1);
                lemma_plan_fields_well_formed(s.fields@, next, next + 1);
                let mk = seq![SchemaVisitOp::MakeFieldList { reserve: s.fields.len() }];
                let vs = seq![
                    SchemaVisitOp::VisitStruct {
                        sibling_list: list as usize,
                        name: f.name,
                        child_list: next as usize,
                    },
                ];
                lemma_single_step(mk[0], next);
                assert(mk =~= seq![mk[0]]);
                lemma_names_earlier_concat(mk, inner, next);
                lemma_lists_created_concat(mk, inner);
                lemma_single_step(vs[0], n);
                assert(vs =~= seq![vs[0]]);
                lemma_names_earlier_concat(mk + inner, vs, next);
                lemma_lists_created_concat(mk + inner, vs);
            },
            _ => {
                lemma_single_step(head[0], next);
                assert(head =~= seq![head[0]]);
            },
        }
        lemma_plan_fields_well_formed(fields.drop_first(), list, n1);
        let tail = plan_fields(fields.drop_first(), list, n1).0;
        lemma_names_earlier_concat(head, tail, next);
        lemma_lists_created_concat(head, tail);
    }
}

/// Every plan made for a schema can be carried out as it stands: it starts by
/// creating the root list, and each step names only lists created before it, so
/// that a visitor's id for every list a step names is known when the step is made.
pub proof fn lemma_plan_is_well_formed(schema: StructType)
    ensures
        well_formed_plan(plan_schema(schema)),
{
    let mk = seq![SchemaVisitOp::MakeFieldList { reserve: schema.fields.len() }];
    let rest = plan_fields(schema.fields@, 0, 1).0;
    lemma_single_step(mk[0], 0);
    assert(mk =~= seq![mk[0]]);
    lemma_plan_fields_well_formed(schema.fields@, 0, 1);
    lemma_names_earlier_concat(mk, rest, 0);
}

/// Each field's step follows its own type: a field whose name can be handed on and
/// whose type is `Integer`, `Long` or `String` is one visit step of that kind into
/// its list; a struct field starts by creating its child list; any other type is
/// one `Unsupported` step that carries the type. A struct field creates its child
/// list (the next ordinal), fills it with its own fields, and is then appended to
/// its list as a struct over that child list. The steps of the fields after it follow.
pub proof fn lemma_field_step_follows_type(fields: Seq<StructField>, list: nat, next: nat)
    requires
        fields.len() > 0,
        !fields[0].name@.contains('\0'),
    ensures
        ({
            let f = fields[0];
            let ops = plan_fields(fields, list, next).0;
            let rest = plan_fields(fields.drop_first(), list, next).0;
            match f.data_type {
                DataType::Primitive(PrimitiveType::Integer) => ops == seq![
                    SchemaVisitOp::VisitInteger { sibling_list: list as usize, name: f.name },
                ] + rest,
                DataType::Primitive(PrimitiveType::Long) => ops == seq![
                    SchemaVisitOp::VisitLong { sibling_list: list as usize, name: f.name },
                ] + rest,
                DataType::Primitive(PrimitiveType::String) => ops == seq![
                    SchemaVisitOp::VisitString { sibling_list: list as usize, name: f.name },
                ] + rest,
                DataType::Struct(s) => {
                    let (inner, after) = plan_fields(s.fields@, next, next + 1);
                    ops == seq![SchemaVisitOp::MakeFieldList { reserve: s.fields.len() }] + inner
                        + seq![
                        SchemaVisitOp::VisitStruct {
                            sibling_list: list as usize,
                            name: f.name,
                            child_list: next as usize,
                        },
                    ] + plan_fields(fields.drop_first(), list, after).0
                },
                other => ops == seq![SchemaVisitOp::Unsupported { name: f.name, data_type: other }]
                    + rest,
            }
        }),
{
}

/// The walk does not look at nullability: giving the first field either nullable
/// flag leaves the steps unchanged (and so, field by field, for every field).
pub proof fn lemma_plan_ignores_nullability(
    fields: Seq<StructField>,
    list: nat,
    next: nat,
    nullable: bool,
)
    requires
        fields.len() > 0,
    ensures
        plan_fields(
            fields.update(
                0,
                (StructField {
                    name: fields[0].name,
                    data_type: fields[0].data_type,
                    nullable,
                }),
            ),
            list,
            next,
        ) == plan_fields(fields, list, next),
{
    let g = StructField { name: fields[0].name, data_type: fields[0].data_type, nullable };
    let updated = fields.update(0, g);
    assert(updated[0] == g);
    assert(updated.drop_first() =~= fields.drop_first());
}

} // verus!
