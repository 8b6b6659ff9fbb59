//! The structural validator: walks a document and its schema in parallel and
//! collects the human-readable messages for every `required` key the document
//! is missing, descending into the sub-schema under `properties` for each key
//! the document does contain. Pure in-memory computation: the result is a
//! function of the two trees alone.

use vstd::prelude::*;
use crate::node::{Node, node_get, obj_lookup, has_key};
use vstd::string::StringExecFns;

verus! {

/// The schema key whose value lists the field names a document must contain.
pub open spec fn required_key() -> Seq<char> {
    "required"@
}

/// The schema key whose value maps field names to their sub-schemas.
pub open spec fn properties_key() -> Seq<char> {
    "properties"@
}

/// The message reported for one missing required field.
pub open spec fn missing_msg(name: Seq<char>) -> Seq<char> {
    "Missing required field: "@ + name
}

/// The views of a list of owned strings.
pub open spec fn views_of(v: Seq<String>) -> Seq<Seq<char>> {
    v.map_values(|s: String| s@)
}

/// Messages of the `required` pass: one per listed name that is a string and
/// is absent from the document node, in list order. Entries of the list that
/// are not strings are skipped.
pub open spec fn spec_required_errors(doc: Node, fields: Seq<Node>) -> Seq<Seq<char>>
    decreases fields.len(),
{
    if fields.len() == 0 {
        Seq::<Seq<char>>::empty()
    } else {
        (match fields[0] {
            Node::Str(name) => if !has_key(doc, name@) {
                seq![missing_msg(name@)]
            } else {
                Seq::<Seq<char>>::empty()
            },
            _ => Seq::<Seq<char>>::empty(),
        }) + spec_required_errors(doc, fields.drop_first())
    }
}

/// A value a mapping hands out sits strictly inside the mapping's entries.
proof fn lemma_obj_lookup_smaller(entries: Seq<(String, Node)>, key: Seq<char>)
    ensures
        obj_lookup(entries, key) matches Some(v) ==> decreases_to!(entries => v),
    decreases entries.len(),
{
    if entries.len() == 0 {
    } else if entries[0].0@ == key {
        assert(decreases_to!(entries => entries[0]));
        assert(decreases_to!(entries[0] => entries[0].1));
        assert(decreases_to!(entries => entries[0].1));
    } else {
        lemma_obj_lookup_smaller(entries.drop_first(), key);
        assert(decreases_to!(entries => entries.subrange(1, entries.len() as int)));
        assert(entries.drop_first() == entries.subrange(1, entries.len() as int));
    }
}

/// The entries of a mapping found under `key` in a node sit strictly inside
/// that node; this is what lets the walk over a schema terminate.
pub proof fn lemma_lookup_entries_smaller(n: Node, key: Seq<char>)
    ensures
        node_get(n, key) matches Some(Node::Obj(es)) ==> decreases_to!(n => es@),
{
    match n {
        Node::Obj(entries) => {
            lemma_obj_lookup_smaller(entries@, key);
            assert(decreases_to!(n => entries));
            assert(decreases_to!(entries => entries@));
            match node_get(n, key) {
                Some(v) => {
                    assert(decreases_to!(n => v));
                    match v {
                        Node::Obj(es) => {
                            assert(decreases_to!(v => es));
                            assert(decreases_to!(es => es@));
                            assert(decreases_to!(n => es@));
                        },
                        _ => {},
                    }
                },
                None => {},
            }
        },
        _ => {},
    }
}

/// All messages for one document node against one schema node: the missing
/// names of the schema's `required` list first, then, for each entry of the
/// schema's `properties` mapping in order whose key the document contains,
/// the messages of the document value under that key against the entry's
/// sub-schema.
pub open spec fn spec_validate(doc: Node, schema: Node) -> Seq<Seq<char>>
    decreases schema, 1int,
{
    (match node_get(schema, required_key()) {
        Some(Node::Arr(fields)) => spec_required_errors(doc, fields@),
        _ => Seq::<Seq<char>>::empty(),
    }) + (match node_get(schema, properties_key()) {
        Some(Node::Obj(pentries)) => {
            proof {
                lemma_lookup_entries_smaller(schema, properties_key());
            }
            spec_validate_entries(doc, pentries@)
        },
        _ => Seq::<Seq<char>>::empty(),
    })
}

/// The messages contributed by a suffix of a schema's `properties` entries.
/// An entry whose key the document does not contain contributes nothing.
pub open spec fn spec_validate_entries(doc: Node, entries: Seq<(String, Node)>) -> Seq<Seq<char>>
    decreases entries, 0int,
{
    if entries.len() == 0 {
        Seq::<Seq<char>>::empty()
    } else {
        (match node_get(doc, entries[0].0@) {
            Some(child) => {
                proof {
                    lemma_obj_lookup_smaller_entry(entries);
                }
                spec_validate(child, entries[0].1)
            },
            None => Seq::<Seq<char>>::empty(),
        }) + {
            proof {
                assert(decreases_to!(entries => entries.subrange(1, entries.len() as int)));
                assert(entries.drop_first() == entries.subrange(1, entries.len() as int));
            }
            spec_validate_entries(doc, entries.drop_first())
        }
    }
}

/// The sub-schema of the first `properties` entry sits strictly inside the
/// entry sequence.
pub proof fn lemma_obj_lookup_smaller_entry(entries: Seq<(String, Node)>)
    requires
        entries.len() > 0,
    ensures
        decreases_to!(entries => entries[0].1),
{
    assert(decreases_to!(entries => entries[0]));
    assert(decreases_to!(entries[0] => entries[0].1));
}

/// Taking views commutes with appending one string.
pub proof fn lemma_views_push(v: Seq<String>, x: String)
    ensures
        views_of(v.push(x)) == views_of(v).push(x@),
{
    assert(views_of(v.push(x)) =~= views_of(v).push(x@));
}

/// Taking views commutes with concatenation.
pub proof fn lemma_views_add(a: Seq<String>, b: Seq<String>)
    ensures
        views_of(a + b) == views_of(a) + views_of(b),
{
    assert(views_of(a + b) =~= views_of(a) + views_of(b));
}

/// Whether a `required` list entry is the string `name`.
pub open spec fn is_required_name(f: Node, name: Seq<char>) -> bool {
    match f {
        Node::Str(s) => s@ == name,
        _ => false,
    }
}

/// How often `name` occurs as a string entry of a `required` list.
pub open spec fn name_occurrences(fields: Seq<Node>, name: Seq<char>) -> nat
    decreases fields.len(),
{
    if fields.len() == 0 {
        0
    } else {
        (if is_required_name(fields[0], name) {
            1nat
        } else {
            0nat
        }) + name_occurrences(fields.drop_first(), name)
    }
}

/// How often a message occurs in a report.
pub open spec fn msg_occurrences(errs: Seq<Seq<char>>, m: Seq<char>) -> nat
    decreases errs.len(),
{
    if errs.len() == 0 {
        0
    } else {
        (if errs[0] == m {
            1nat
        } else {
            0nat
        }) + msg_occurrences(errs.drop_first(), m)
    }
}

/// Occurrence counts add up over concatenation.
pub proof fn lemma_msg_occurrences_add(a: Seq<Seq<char>>, b: Seq<Seq<char>>, m: Seq<char>)
    ensures
        msg_occurrences(a + b, m) == msg_occurrences(a, m) + msg_occurrences(b, m),
    decreases a.len(),
{
    if a.len() == 0 {
        assert(a + b =~= b);
    } else {
        lemma_msg_occurrences_add(a.drop_first(), b, m);
        assert((a + b).drop_first() =~= a.drop_first() + b);
        assert((a + b)[0] == a[0]);
    }
}

/// Two missing-field messages are equal exactly when they name the same field.
pub proof fn lemma_missing_msg_injective(a: Seq<char>, b: Seq<char>)
    ensures
        (missing_msg(a) == missing_msg(b)) <==> (a == b),
{
    let p = "Missing required field: "@;
    if missing_msg(a) == missing_msg(b) {
        assert(p + a == p + b);
        assert((p + a).len() == (p + b).len());
        assert(a.len() == b.len());
        assert forall|i: int| 0 <= i < a.len() implies a[i] == b[i] by {
            assert((p + a)[p.len() + i] == a[i]);
            assert((p + b)[p.len() + i] == b[i]);
        }
        assert(a =~= b);
    }
}

/// The `required` pass reports each missing name exactly once per occurrence
/// in the list, and never reports a name the document contains.
pub proof fn lemma_required_report_exact(doc: Node, fields: Seq<Node>, name: Seq<char>)
    ensures
        !has_key(doc, name) ==> msg_occurrences(spec_required_errors(doc, fields), missing_msg(name))
            == name_occurrences(fields, name),
        has_key(doc, name) ==> msg_occurrences(spec_required_errors(doc, fields), missing_msg(name))
            == 0,
    decreases fields.len(),
{
    if fields.len() == 0 {
    } else {
        lemma_required_report_exact(doc, fields.drop_first(), name);
        let head: Seq<Seq<char>> = match fields[0] {
            Node::Str(s) => if !has_key(doc, s@) {
                seq![missing_msg(s@)]
            } else {
                Seq::<Seq<char>>::empty()
            },
            _ => Seq::<Seq<char>>::empty(),
        };
        let rest = spec_required_errors(doc, fields.drop_first());
        lemma_msg_occurrences_add(head, rest, missing_msg(name));
        assert(spec_required_errors(doc, fields) == head + rest);
        assert(name_occurrences(fields, name) == (if is_required_name(fields[0], name) {
            1nat
        } else {
            0nat
        }) + name_occurrences(fields.drop_first(), name));
        match fields[0] {
            Node::Str(s) => {
                lemma_missing_msg_injective(s@, name);
                if !has_key(doc, s@) {
                    assert(head.drop_first() =~= Seq::<Seq<char>>::empty());
                    assert(head[0] == missing_msg(s@));
                    assert(msg_occurrences(Seq::<Seq<char>>::empty(), missing_msg(name)) == 0);
                    assert(msg_occurrences(head.drop_first(), missing_msg(name)) == 0);
                    assert(msg_occurrences(head, missing_msg(name))
                        == (if missing_msg(s@) == missing_msg(name) {
                        1nat
                    } else {
                        0nat
                    }));
                } else {
                    assert(msg_occurrences(head, missing_msg(name)) == 0);
                }
            },
            _ => {
                assert(msg_occurrences(head, missing_msg(name)) == 0);
            },
        }
    }
}

/// A `properties` entry whose key the document does not contain contributes
/// nothing at all, however strict its sub-schema: dropping the entry leaves
/// the report unchanged.
pub proof fn lemma_absent_property_no_descent(doc: Node, entries: Seq<(String, Node)>, i: int)
    requires
        0 <= i < entries.len(),
        !has_key(doc, entries[i].0@),
    ensures
        spec_validate_entries(doc, entries) == spec_validate_entries(doc, entries.remove(i)),
    decreases entries.len(),
{
    if i == 0 {
        assert(entries.remove(0) =~= entries.drop_first());
    } else {
        lemma_absent_property_no_descent(doc, entries.drop_first(), i - 1);
        assert(entries.remove(i).drop_first() =~= entries.drop_first().remove(i - 1));
        assert(entries.remove(i)[0] == entries[0]);
    }
}

/// A document that contains none of the `properties` keys draws no message
/// from the `properties` pass, whatever the sub-schemas demand.
pub proof fn lemma_all_absent_properties_silent(doc: Node, entries: Seq<(String, Node)>)
    requires
        forall|i: int| 0 <= i < entries.len() ==> !has_key(doc, #[trigger] entries[i].0@),
    ensures
        spec_validate_entries(doc, entries) == Seq::<Seq<char>>::empty(),
    decreases entries.len(),
{
    if entries.len() > 0 {
        assert(!has_key(doc, entries[0].0@));
        lemma_all_absent_properties_silent(doc, entries.drop_first());
        assert(Seq::<Seq<char>>::empty() + Seq::<Seq<char>>::empty()
            =~= Seq::<Seq<char>>::empty());
    }
}

/// A report that counts a message at least once contains it.
pub proof fn lemma_msg_occurrences_contains(errs: Seq<Seq<char>>, m: Seq<char>)
    ensures
        msg_occurrences(errs, m) > 0 ==> errs.contains(m),
    decreases errs.len(),
{
    if errs.len() > 0 {
        lemma_msg_occurrences_contains(errs.drop_first(), m);
        if errs[0] == m {
            assert(errs.contains(m));
        } else if msg_occurrences(errs, m) > 0 {
            let i = choose|i: int|
                0 <= i < errs.drop_first().len() && errs.drop_first()[i] == m;
            assert(errs[i + 1] == m);
            assert(errs.contains(m));
        }
    }
}

/// A required name the document lacks is always reported, whatever the
/// `properties` pass adds behind it.
pub proof fn lemma_missing_required_reported(doc: Node, schema: Node, name: Seq<char>)
    requires
        node_get(schema, required_key()) matches Some(Node::Arr(fields))
            && name_occurrences(fields@, name) > 0,
        !has_key(doc, name),
    ensures
        spec_validate(doc, schema).contains(missing_msg(name)),
{
    match node_get(schema, required_key()) {
        Some(Node::Arr(fields)) => {
            lemma_required_report_exact(doc, fields@, name);
            let req = spec_required_errors(doc, fields@);
            lemma_msg_occurrences_contains(req, missing_msg(name));
            let i = choose|i: int| 0 <= i < req.len() && req[i] == missing_msg(name);
            assert(spec_validate(doc, schema)[i] == req[i]);
            assert(spec_validate(doc, schema).contains(missing_msg(name)));
        },
        _ => {
            assert(false);
        },
    }
}

/// When the schema offers no `properties` mapping, the whole report is the
/// `required` pass: a missing name is reported exactly once per occurrence
/// in the list, a present one never.
pub proof fn lemma_validate_required_only_exact(doc: Node, schema: Node, name: Seq<char>)
    requires
        match node_get(schema, properties_key()) {
            Some(Node::Obj(pentries)) => false,
            _ => true,
        },
        node_get(schema, required_key()) matches Some(Node::Arr(fields)),
    ensures
        node_get(schema, required_key()) matches Some(Node::Arr(fields)) ==> {
            &&& !has_key(doc, name)
                ==> msg_occurrences(spec_validate(doc, schema), missing_msg(name))
                    == name_occurrences(fields@, name)
            &&& has_key(doc, name)
                ==> msg_occurrences(spec_validate(doc, schema), missing_msg(name)) == 0
        },
{
    match node_get(schema, required_key()) {
        Some(Node::Arr(fields)) => {
            lemma_required_report_exact(doc, fields@, name);
            let req = spec_required_errors(doc, fields@);
            assert(spec_validate(doc, schema) == req + Seq::<Seq<char>>::empty());
            assert(req + Seq::<Seq<char>>::empty() =~= req);
        },
        _ => {
            assert(false);
        },
    }
}

/// A schema node that offers neither a `required` list nor a `properties`
/// mapping reports nothing, whatever the document holds, and descends no
/// further.
pub proof fn lemma_plain_schema_silent(doc: Node, schema: Node)
    requires
        match node_get(schema, required_key()) {
            Some(Node::Arr(fields)) => false,
            _ => true,
        },
        match node_get(schema, properties_key()) {
            Some(Node::Obj(pentries)) => false,
            _ => true,
        },
    ensures
        spec_validate(doc, schema) == Seq::<Seq<char>>::empty(),
{
    assert(Seq::<Seq<char>>::empty() + Seq::<Seq<char>>::empty()
        =~= Seq::<Seq<char>>::empty());
}

/// Validation is deterministic: two reports of the same document against the
/// same schema are identical, message for message and in order.
pub proof fn lemma_validate_deterministic(
    doc: Node,
    schema: Node,
    r1: Seq<Seq<char>>,
    r2: Seq<Seq<char>>,
)
    requires
        r1 == spec_validate(doc, schema),
        r2 == spec_validate(doc, schema),
    ensures
        r1 == r2,
{
}

/// Collects every message for `doc` against `schema`, in discovery order:
/// the schema's missing `required` names first, then the messages of each
/// present `properties` key against its sub-schema.
pub fn validate(doc: &Node, schema: &Node) -> (errs: Vec<String>)
    ensures
        views_of(errs@) == spec_validate(*doc, *schema),
    decreases *schema,
{
    let mut errs: Vec<String> = Vec::new();
    let ghost req_errs: Seq<Seq<char>> = match node_get(*schema, required_key()) {
        Some(Node::Arr(fields)) => spec_required_errors(*doc, fields@),
        _ => Seq::<Seq<char>>::empty(),
    };
    if let Some(req) = schema.get("required") {
        if let Node::Arr(fields) = req {
            proof {
                assert(fields@.skip(0) =~= fields@);
                assert(views_of(errs@) =~= Seq::<Seq<char>>::empty());
            }
            let n = fields.len();
            let mut j: usize = 0;
            while j < n
                invariant
                    n == fields.len(),
                    j <= n,
                    req_errs == spec_required_errors(*doc, fields@),
                    views_of(errs@) + spec_required_errors(*doc, fields@.skip(j as int))
                        == req_errs,
                decreases n - j,
            {
                proof {
                    assert(fields@.skip(j as int)[0] == fields@[j as int]);
                    assert(fields@.skip(j as int).drop_first() =~= fields@.skip(j as int + 1));
                }
                let ghost pre = errs@;
                let ghost head = spec_required_errors(*doc, fields@.skip(j as int));
                if let Node::Str(name) = &fields[j] {
                    if doc.get(name.as_str()).is_none() {
                        let msg = "Missing required field: ".to_owned().concat(name.as_str());
                        proof {
                            assert(msg@ == missing_msg(name@));
                            lemma_views_push(errs@, msg);
                        }
                        errs.push(msg);
                        proof {
                            assert(head =~= seq![missing_msg(name@)]
                                + spec_required_errors(*doc, fields@.skip(j as int + 1)));
                            assert(views_of(errs@)
                                + spec_required_errors(*doc, fields@.skip(j as int + 1))
                                =~= views_of(pre) + head);
                        }
                    } else {
                        proof {
                            assert(head =~= spec_required_errors(*doc, fields@.skip(j as int + 1)));
                        }
                    }
                } else {
                    proof {
                        assert(head =~= spec_required_errors(*doc, fields@.skip(j as int + 1)));
                    }
                }
                j += 1;
            }
            proof {
                assert(fields@.skip(n as int) =~= Seq::<Node>::empty());
                assert(spec_required_errors(*doc, fields@.skip(n as int))
                    =~= Seq::<Seq<char>>::empty());
                assert(views_of(errs@) + Seq::<Seq<char>>::empty() =~= views_of(errs@));
            }
        } else {
            proof {
                assert(views_of(errs@) =~= Seq::<Seq<char>>::empty());
            }
        }
    } else {
        proof {
            assert(views_of(errs@) =~= Seq::<Seq<char>>::empty());
        }
    }
    proof {
        assert(views_of(errs@) == req_errs);
    }
    if let Some(props) = schema.get("properties") {
        if let Node::Obj(pentries) = props {
            proof {
                assert(pentries@.skip(0) =~= pentries@);
            }
            let n2 = pentries.len();
            let mut i: usize = 0;
            while i < n2
                invariant
                    n2 == pentries.len(),
                    i <= n2,
                    node_get(*schema, properties_key()) == Some(*props),
                    *props == Node::Obj(*pentries),
                    req_errs == (match node_get(*schema, required_key()) {
                        Some(Node::Arr(fields)) => spec_required_errors(*doc, fields@),
                        _ => Seq::<Seq<char>>::empty(),
                    }),
                    views_of(errs@) + spec_validate_entries(*doc, pentries@.skip(i as int))
                        == req_errs + spec_validate_entries(*doc, pentries@),
                decreases n2 - i,
            {
                proof {
                    assert(pentries@.skip(i as int)[0] == pentries@[i as int]);
                    assert(pentries@.skip(i as int).drop_first() =~= pentries@.skip(i as int + 1));
                }
                let ghost pre = errs@;
                let ghost head = spec_validate_entries(*doc, pentries@.skip(i as int));
                let key = &pentries[i].0;
                let child_schema = &pentries[i].1;
                if let Some(child) = doc.get(key.as_str()) {
                    proof {
                        lemma_lookup_entries_smaller(*schema, properties_key());
                        assert(decreases_to!(pentries@ => pentries@[i as int]));
                        assert(decreases_to!(pentries@[i as int] => pentries@[i as int].1));
                        assert(decreases_to!(*schema => *child_schema));
                    }
                    let mut sub = validate(child, child_schema);
                    proof {
                        lemma_views_add(errs@, sub@);
                        assert(head =~= spec_validate(*child, pentries@[i as int].1)
                            + spec_validate_entries(*doc, pentries@.skip(i as int + 1)));
                    }
                    errs.append(&mut sub);
                    proof {
                        assert(views_of(errs@)
                            + spec_validate_entries(*doc, pentries@.skip(i as int + 1))
                            =~= views_of(pre) + head);
                    }
                } else {
                    proof {
                        assert(head =~= spec_validate_entries(*doc, pentries@.skip(i as int + 1)));
                    }
                }
                i += 1;
            }
            proof {
                assert(pentries@.skip(n2 as int) =~= Seq::<(String, Node)>::empty());
                assert(spec_validate_entries(*doc, pentries@.skip(n2 as int))
                    =~= Seq::<Seq<char>>::empty());
                assert(views_of(errs@) + Seq::<Seq<char>>::empty() =~= views_of(errs@));
                assert(spec_validate(*doc, *schema)
                    == req_errs + spec_validate_entries(*doc, pentries@));
            }
        } else {
            proof {
                assert(spec_validate(*doc, *schema) == req_errs + Seq::<Seq<char>>::empty());
                assert(req_errs + Seq::<Seq<char>>::empty() =~= req_errs);
            }
        }
    } else {
        proof {
            assert(spec_validate(*doc, *schema) == req_errs + Seq::<Seq<char>>::empty());
            assert(req_errs + Seq::<Seq<char>>::empty() =~= req_errs);
        }
    }
    errs
}

} // verus!
