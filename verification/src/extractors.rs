//! Extraction of query arguments from parsed input: pagination limits,
//! cursors (single-field and compound), ordering and the where-filter.
use vstd::prelude::*;

use crate::delete_nested::{spec_extracted_filter, spec_filter_extractable};
use crate::error::QueryGraphBuilderError;
use crate::model::{spec_compound_names, spec_field_names, Model};
use crate::parsed_input::ParsedInputValue;
use crate::prisma_value::{PrismaValue, ValueView};
use crate::projection::{
    field_views, lemma_name_index, name_index, names_contain, RecordProjection,
};
use crate::query_arguments::{OrderBy, QueryArguments, SortOrder};

verus! {

broadcast use Seq::lemma_map_take_succ, Seq::lemma_push_map_commute, vstd::string::group_string_axioms;

/// The names of a parsed input map's entries, in order.
pub open spec fn entry_names(entries: Seq<(String, ParsedInputValue)>) -> Seq<Seq<char>> {
    entries.map_values(|e: (String, ParsedInputValue)| e.0@)
}

/// The cursor pairs one input entry denotes: a single-column field paired
/// with its scalar value, or a compound unique expanded into one pair per
/// member field, each looked up by its logical name in the entry's map.
pub open spec fn spec_entry_pairs(
    model: Model,
    entry: (String, ParsedInputValue),
) -> Option<Seq<(Seq<char>, ValueView)>> {
    let fields = field_views(model.fields@);
    if names_contain(spec_field_names(fields), entry.0@) {
        let f = fields[name_index(spec_field_names(fields), entry.0@)];
        if f.db_names.len() == 1 && entry.1 is Single {
            Some(seq![(f.db_names[0], entry.1->Single_0@)])
        } else {
            None
        }
    } else if names_contain(spec_compound_names(model.compound_indexes@), entry.0@) {
        let ci = model.compound_indexes@[name_index(
            spec_compound_names(model.compound_indexes@),
            entry.0@,
        )];
        if entry.1 is Object {
            spec_compound_pairs(ci.fields@, entry.1->Object_0@)
        } else {
            None
        }
    } else {
        None
    }
}

/// The pairs a compound unique contributes: each member field's single column
/// paired with the scalar found under the field's logical name.
pub open spec fn spec_compound_pairs(
    members: Seq<crate::projection::ProjectionField>,
    entries: Seq<(String, ParsedInputValue)>,
) -> Option<Seq<(Seq<char>, ValueView)>>
    decreases members.len(),
{
    if members.len() == 0 {
        Some(Seq::empty())
    } else {
        let rest = spec_compound_pairs(members.drop_last(), entries);
        let f = members.last()@;
        if rest is Some && f.db_names.len() == 1 && names_contain(entry_names(entries), f.name) {
            let v = entries[name_index(entry_names(entries), f.name)].1;
            if v is Single {
                Some(rest->Some_0.push((f.db_names[0], v->Single_0@)))
            } else {
                None
            }
        } else {
            None
        }
    }
}

/// The cursor pairs a whole input map denotes, entry by entry.
pub open spec fn spec_cursor_pairs(
    model: Model,
    entries: Seq<(String, ParsedInputValue)>,
) -> Option<Seq<(Seq<char>, ValueView)>>
    decreases entries.len(),
{
    if entries.len() == 0 {
        Some(Seq::empty())
    } else {
        let rest = spec_cursor_pairs(model, entries.drop_last());
        let p = spec_entry_pairs(model, entries.last());
        if rest is Some && p is Some {
            Some(rest->Some_0 + p->Some_0)
        } else {
            None
        }
    }
}

/// What the cursor argument denotes: no cursor for a null scalar, the
/// denoted identity pairs for a map, an error otherwise.
pub open spec fn spec_extract_cursor(model: Model, value: ParsedInputValue) -> Option<
    Option<Seq<(Seq<char>, ValueView)>>,
> {
    match value {
        ParsedInputValue::Single(v) => if v is Null {
            Some(None)
        } else {
            None
        },
        ParsedInputValue::Object(entries) => match spec_cursor_pairs(model, entries@) {
            Some(pairs) => Some(Some(pairs)),
            None => None,
        },
        ParsedInputValue::List(_) => None,
    }
}

pub proof fn lemma_cursor_pairs_extend_none(
    model: Model,
    entries: Seq<(String, ParsedInputValue)>,
    i: int,
)
    requires
        0 <= i <= entries.len(),
        spec_cursor_pairs(model, entries.take(i)) is None,
    ensures
        spec_cursor_pairs(model, entries) is None,
    decreases entries.len() - i,
{
    if i == entries.len() {
        assert(entries.take(i) =~= entries);
    } else {
        assert(entries.take(i + 1).drop_last() =~= entries.take(i));
        lemma_cursor_pairs_extend_none(model, entries, i + 1);
    }
}

pub proof fn lemma_compound_pairs_extend_none(
    members: Seq<crate::projection::ProjectionField>,
    entries: Seq<(String, ParsedInputValue)>,
    m: int,
)
    requires
        0 <= m <= members.len(),
        spec_compound_pairs(members.take(m), entries) is None,
    ensures
        spec_compound_pairs(members, entries) is None,
    decreases members.len() - m,
{
    if m == members.len() {
        assert(members.take(m) =~= members);
    } else {
        assert(members.take(m + 1).drop_last() =~= members.take(m));
        lemma_compound_pairs_extend_none(members, entries, m + 1);
    }
}

/// The first entry of a cursor map that denotes no pairs; meaningful only
/// when one exists.
pub open spec fn first_bad_cursor_entry(
    model: Model,
    entries: Seq<(String, ParsedInputValue)>,
) -> int
    decreases entries.len(),
{
    if entries.len() == 0 {
        0
    } else if spec_entry_pairs(model, entries[0]) is None {
        0
    } else {
        1 + first_bad_cursor_entry(model, entries.skip(1))
    }
}

pub proof fn lemma_first_bad_cursor_entry_of(
    model: Model,
    entries: Seq<(String, ParsedInputValue)>,
    k: int,
)
    requires
        0 <= k < entries.len(),
        spec_entry_pairs(model, entries[k]) is None,
        forall|l: int| 0 <= l < k ==> spec_entry_pairs(model, #[trigger] entries[l]) is Some,
    ensures
        first_bad_cursor_entry(model, entries) == k,
    decreases k,
{
    if k > 0 {
        assert forall|l: int| 0 <= l < k - 1 implies spec_entry_pairs(
            model,
            #[trigger] entries.skip(1)[l],
        ) is Some by {
            assert(entries.skip(1)[l] == entries[l + 1]);
        }
        assert(entries.skip(1)[k - 1] == entries[k]);
        lemma_first_bad_cursor_entry_of(model, entries.skip(1), k - 1);
    }
}

pub proof fn lemma_cursor_pairs_some_all(
    model: Model,
    entries: Seq<(String, ParsedInputValue)>,
    k: int,
)
    requires
        0 <= k <= entries.len(),
        spec_cursor_pairs(model, entries.take(k)) is Some,
    ensures
        forall|l: int| 0 <= l < k ==> spec_entry_pairs(model, #[trigger] entries[l]) is Some,
    decreases k,
{
    if k > 0 {
        assert(entries.take(k).drop_last() =~= entries.take(k - 1));
        assert(entries.take(k).last() == entries[k - 1]);
        lemma_cursor_pairs_some_all(model, entries, k - 1);
    }
}

/// What a cursor-extraction failure reports: a scalar or list value that is
/// not a cursor map is an input error; within a map, the first entry denoting
/// no pairs is named — an unresolvable name as an assertion failure naming
/// field and model, a bad shape as an input error naming the field.
pub open spec fn spec_cursor_error(
    model: Model,
    value: ParsedInputValue,
    e: QueryGraphBuilderError,
) -> bool {
    match value {
        ParsedInputValue::Single(v) => !(v is Null) && (e matches
            QueryGraphBuilderError::InputError(m) && m@
            == "a cursor must be null or a map of fields to values"@),
        ParsedInputValue::List(_) => e matches QueryGraphBuilderError::InputError(m) && m@
            == "a cursor must be null or a map of fields to values"@,
        ParsedInputValue::Object(entries) => {
            let entry = entries@[first_bad_cursor_entry(model, entries@)];
            if !names_contain(spec_field_names(field_views(model.fields@)), entry.0@)
                && !names_contain(spec_compound_names(model.compound_indexes@), entry.0@) {
                e matches QueryGraphBuilderError::AssertionError(m) && m@ == entry.0@
                    + " is not a field or compound unique of "@ + model.name@
            } else {
                e matches QueryGraphBuilderError::InputError(m) && m@ == entry.0@
            }
        },
    }
}

/// Finds the first entry of `map` whose name is `name`.
fn find_entry_index(map: &Vec<(String, ParsedInputValue)>, name: &String) -> (r: Option<usize>)
    ensures
        match r {
            Some(i) => names_contain(entry_names(map@), name@) && i == name_index(
                entry_names(map@),
                name@,
            ),
            None => !names_contain(entry_names(map@), name@),
        },
{
    let ghost names = entry_names(map@);
    let mut i: usize = 0;
    while i < map.len()
        invariant
            i <= map.len(),
            names == entry_names(map@),
            forall|j: int| 0 <= j < i ==> names[j] != name@,
        decreases map.len() - i,
    {
        proof {
            assert(names[i as int] == map@[i as int].0@);
        }
        if map[i].0 == *name {
            proof {
                crate::projection::lemma_name_index_of_first(names, name@, i as int);
            }
            return Some(i);
        }
        i += 1;
    }
    None
}

/// Extracts the cursor identity a parsed input value denotes over `model`:
/// a null value short-circuits to no cursor; a map contributes, per entry,
/// either a single-column field's pair or a compound unique's pairs.
pub fn extract_cursor(value: ParsedInputValue, model: &Model) -> (r: Result<
    Option<RecordProjection>,
    QueryGraphBuilderError,
>)
    ensures
        r is Ok <==> spec_extract_cursor(*model, value) is Some,
        r matches Ok(opt) ==> match spec_extract_cursor(*model, value) {
            Some(Some(pairs)) => opt matches Some(p) && p@ == pairs,
            Some(None) => opt is None,
            None => false,
        },
        r matches Err(e) ==> spec_cursor_error(*model, value, e),
{
    let entries = match value {
        ParsedInputValue::Single(v) => {
            return match v {
                PrismaValue::Null => Ok(None),
                _ => Err(
                    QueryGraphBuilderError::InputError(
                        "a cursor must be null or a map of fields to values".to_owned(),
                    ),
                ),
            };
        },
        ParsedInputValue::Object(entries) => entries,
        ParsedInputValue::List(_) => {
            return Err(
                QueryGraphBuilderError::InputError(
                    "a cursor must be null or a map of fields to values".to_owned(),
                ),
            );
        },
    };
    let mut pairs: Vec<(String, PrismaValue)> = Vec::new();
    let mut i: usize = 0;
    proof {
        assert(entries@.take(0) =~= Seq::<(String, ParsedInputValue)>::empty());
        assert(crate::projection::pair_views(pairs@) =~= Seq::<(Seq<char>, ValueView)>::empty());
    }
    while i < entries.len()
        invariant
            i <= entries.len(),
            value == ParsedInputValue::Object(entries),
            spec_cursor_pairs(*model, entries@.take(i as int)) is Some,
            crate::projection::pair_views(pairs@) == spec_cursor_pairs(
                *model,
                entries@.take(i as int),
            )->Some_0,
        decreases entries.len() - i,
    {
        let entry = &entries[i];
        let ghost fields = field_views(model.fields@);
        proof {
            assert(entries@.take(i + 1).drop_last() =~= entries@.take(i as int));
            assert(entries@.take(i + 1).last() == entries@[i as int]);
        }
        match model.find_field(&entry.0) {
            Some(field) => {
                proof {
                    lemma_name_index(spec_field_names(fields), entry.0@);
                }
                if field.db_names.len() == 1 {
                    match &entry.1 {
                        ParsedInputValue::Single(v) => {
                            pairs.push((field.db_names[0].clone(), v.clone()));
                            proof {
                                assert(spec_entry_pairs(*model, entries@[i as int]) matches Some(
                                    p,
                                ) && p =~= seq![(field@.db_names[0], v@)]);
                                assert(crate::projection::pair_views(pairs@)
                                    =~= spec_cursor_pairs(*model, entries@.take(i + 1))->Some_0);
                            }
                        },
                        _ => {
                            proof {
                                assert(spec_entry_pairs(*model, entries@[i as int]) is None);
                                assert(spec_cursor_pairs(*model, entries@.take(i + 1)) is None);
                                lemma_cursor_pairs_extend_none(*model, entries@, i + 1);
                                lemma_cursor_pairs_some_all(*model, entries@, i as int);
                                lemma_first_bad_cursor_entry_of(*model, entries@, i as int);
                            }
                            return Err(QueryGraphBuilderError::InputError(entry.0.clone()));
                        },
                    }
                } else {
                    proof {
                        assert(spec_entry_pairs(*model, entries@[i as int]) is None);
                        assert(spec_cursor_pairs(*model, entries@.take(i + 1)) is None);
                        lemma_cursor_pairs_extend_none(*model, entries@, i + 1);
                        lemma_cursor_pairs_some_all(*model, entries@, i as int);
                        lemma_first_bad_cursor_entry_of(*model, entries@, i as int);
                    }
                    return Err(QueryGraphBuilderError::InputError(entry.0.clone()));
                }
            },
            None => match model.find_compound(&entry.0) {
                Some(compound) => {
                    proof {
                        lemma_name_index(
                            spec_compound_names(model.compound_indexes@),
                            entry.0@,
                        );
                    }
                    let cmap = match &entry.1 {
                        ParsedInputValue::Object(cmap) => cmap,
                        _ => {
                            proof {
                                assert(spec_entry_pairs(*model, entries@[i as int]) is None);
                                assert(spec_cursor_pairs(*model, entries@.take(i + 1)) is None);
                                lemma_cursor_pairs_extend_none(*model, entries@, i + 1);
                                lemma_cursor_pairs_some_all(*model, entries@, i as int);
                                lemma_first_bad_cursor_entry_of(*model, entries@, i as int);
                            }
                            return Err(QueryGraphBuilderError::InputError(entry.0.clone()));
                        },
                    };
                    let ghost base = crate::projection::pair_views(pairs@);
                    let mut m: usize = 0;
                    proof {
                        assert(compound.fields@.take(0) =~= Seq::<
                            crate::projection::ProjectionField,
                        >::empty());
                        assert(spec_compound_pairs(compound.fields@.take(0), cmap@)
                            matches Some(p) && p =~= Seq::<(Seq<char>, ValueView)>::empty());
                        assert(crate::projection::pair_views(pairs@) =~= base
                            + spec_compound_pairs(compound.fields@.take(0), cmap@)->Some_0);
                    }
                    while m < compound.fields.len()
                        invariant
                            m <= compound.fields.len(),
                            value == ParsedInputValue::Object(entries),
                            entry == &entries@[i as int],
                            compound == &model.compound_indexes@[name_index(
                                spec_compound_names(model.compound_indexes@),
                                entries@[i as int].0@,
                            )],
                            0 <= i < entries@.len(),
                            spec_cursor_pairs(*model, entries@.take(i as int)) is Some,
                            !names_contain(
                                spec_field_names(field_views(model.fields@)),
                                entries@[i as int].0@,
                            ),
                            names_contain(
                                spec_compound_names(model.compound_indexes@),
                                entries@[i as int].0@,
                            ),
                            entries@[i as int].1 == ParsedInputValue::Object(*cmap),
                            spec_compound_pairs(compound.fields@.take(m as int), cmap@) is Some,
                            crate::projection::pair_views(pairs@) == base + spec_compound_pairs(
                                compound.fields@.take(m as int),
                                cmap@,
                            )->Some_0,
                        decreases compound.fields.len() - m,
                    {
                        let member = &compound.fields[m];
                        proof {
                            assert(compound.fields@.take(m + 1).drop_last()
                                =~= compound.fields@.take(m as int));
                            assert(compound.fields@.take(m + 1).last() == compound.fields@[
                                m as int
                            ]);
                        }
                        if member.db_names.len() != 1 {
                            proof {
                                assert(compound.fields@.take(m + 1).drop_last()
                                    =~= compound.fields@.take(m as int));
                                assert(spec_compound_pairs(compound.fields@.take(m + 1), cmap@)
                                    is None);
                                lemma_compound_pairs_extend_none(compound.fields@, cmap@, m + 1);
                                assert(spec_entry_pairs(*model, entries@[i as int]) is None);
                                assert(entries@.take(i + 1).drop_last() =~= entries@.take(
                                    i as int,
                                ));
                                assert(entries@.take(i + 1).last() == entries@[i as int]);
                                assert(spec_cursor_pairs(*model, entries@.take(i + 1)) is None);
                                lemma_cursor_pairs_extend_none(*model, entries@, i + 1);
                                lemma_cursor_pairs_some_all(*model, entries@, i as int);
                                lemma_first_bad_cursor_entry_of(*model, entries@, i as int);
                            }
                            return Err(QueryGraphBuilderError::InputError(entry.0.clone()));
                        }
                        match find_entry_index(cmap, &member.name) {
                            Some(idx) => {
                                proof {
                                    lemma_name_index(entry_names(cmap@), member.name@);
                                }
                                match &cmap[idx].1 {
                                    ParsedInputValue::Single(v) => {
                                        pairs.push((member.db_names[0].clone(), v.clone()));
                                        proof {
                                            assert(crate::projection::pair_views(pairs@)
                                                =~= base + spec_compound_pairs(
                                                compound.fields@.take(m + 1),
                                                cmap@,
                                            )->Some_0);
                                        }
                                    },
                                    _ => {
                                        proof {
                                            assert(compound.fields@.take(m + 1).drop_last()
                                                =~= compound.fields@.take(m as int));
                                            assert(spec_compound_pairs(
                                                compound.fields@.take(m + 1),
                                                cmap@,
                                            ) is None);
                                            lemma_compound_pairs_extend_none(
                                                compound.fields@,
                                                cmap@,
                                                m + 1,
                                            );
                                            assert(spec_entry_pairs(*model, entries@[i as int])
                                                is None);
                                            assert(entries@.take(i + 1).drop_last()
                                                =~= entries@.take(i as int));
                                            assert(entries@.take(i + 1).last() == entries@[
                                                i as int
                                            ]);
                                            assert(spec_cursor_pairs(
                                                *model,
                                                entries@.take(i + 1),
                                            ) is None);
                                            lemma_cursor_pairs_extend_none(
                                                *model,
                                                entries@,
                                                i + 1,
                                            );
                                            lemma_cursor_pairs_some_all(
                                                *model,
                                                entries@,
                                                i as int,
                                            );
                                            lemma_first_bad_cursor_entry_of(
                                                *model,
                                                entries@,
                                                i as int,
                                            );
                                        }
                                        return Err(
                                            QueryGraphBuilderError::InputError(entry.0.clone()),
                                        );
                                    },
                                }
                            },
                            None => {
                                proof {
                                    assert(compound.fields@.take(m + 1).drop_last()
                                        =~= compound.fields@.take(m as int));
                                    assert(spec_compound_pairs(
                                        compound.fields@.take(m + 1),
                                        cmap@,
                                    ) is None);
                                    lemma_compound_pairs_extend_none(
                                        compound.fields@,
                                        cmap@,
                                        m + 1,
                                    );
                                    assert(spec_entry_pairs(*model, entries@[i as int]) is None);
                                    assert(entries@.take(i + 1).drop_last() =~= entries@.take(
                                        i as int,
                                    ));
                                    assert(entries@.take(i + 1).last() == entries@[i as int]);
                                    assert(spec_cursor_pairs(*model, entries@.take(i + 1))
                                        is None);
                                    lemma_cursor_pairs_extend_none(*model, entries@, i + 1);
                                    lemma_cursor_pairs_some_all(*model, entries@, i as int);
                                    lemma_first_bad_cursor_entry_of(*model, entries@, i as int);
                                }
                                return Err(QueryGraphBuilderError::InputError(entry.0.clone()));
                            },
                        }
                        m += 1;
                    }
                    proof {
                        assert(compound.fields@.take(compound.fields@.len() as int)
                            =~= compound.fields@);
                        assert(spec_entry_pairs(*model, entries@[i as int]) matches Some(p) && p
                            == spec_compound_pairs(compound.fields@, cmap@)->Some_0);
                        assert(crate::projection::pair_views(pairs@) =~= spec_cursor_pairs(
                            *model,
                            entries@.take(i + 1),
                        )->Some_0);
                    }
                },
                None => {
                    proof {
                        assert(spec_entry_pairs(*model, entries@[i as int]) is None);
                        assert(entries@.take(i + 1).drop_last() =~= entries@.take(i as int));
                        assert(spec_cursor_pairs(*model, entries@.take(i + 1)) is None);
                        lemma_cursor_pairs_extend_none(*model, entries@, i + 1);
                        lemma_cursor_pairs_some_all(*model, entries@, i as int);
                        lemma_first_bad_cursor_entry_of(*model, entries@, i as int);
                    }
                    return Err(
                        QueryGraphBuilderError::AssertionError(
                            entry.0.clone().concat(" is not a field or compound unique of ")
                                .concat(model.name.as_str()),
                        ),
                    );
                },
            },
        }
        i += 1;
    }
    proof {
        assert(entries@.take(entries@.len() as int) =~= entries@);
    }
    Ok(Some(RecordProjection::new(pairs)))
}

/// One named argument of a parsed query.
#[derive(Debug)]
pub struct ParsedArgument {
    pub name: String,
    pub value: ParsedInputValue,
}

/// The limit a scalar argument denotes: an integer, or none for null.
pub open spec fn spec_limit(v: ParsedInputValue) -> Option<Option<i64>> {
    match v {
        ParsedInputValue::Single(PrismaValue::Int(n)) => Some(Some(n)),
        ParsedInputValue::Single(PrismaValue::Null) => Some(None),
        _ => None,
    }
}

/// The ordering an argument denotes: a one-entry map from the physical
/// column to the descending flag.
pub open spec fn spec_order_by(v: ParsedInputValue) -> Option<
    crate::query_arguments::OrderByView,
> {
    if v is Object && v->Object_0@.len() == 1 && (v->Object_0@[0].1 matches
        ParsedInputValue::Single(PrismaValue::Boolean(_))) {
        Some(
            crate::query_arguments::OrderByView {
                field: v->Object_0@[0].0@,
                sort_order: if v->Object_0@[0].1->Single_0->Boolean_0 {
                    SortOrder::Descending
                } else {
                    SortOrder::Ascending
                },
            },
        )
    } else {
        None
    }
}

/// What one named argument does to the accumulated query arguments; an
/// unknown name changes nothing.
pub open spec fn spec_apply_arg(
    model: Model,
    acc: crate::query_arguments::QueryArgumentsView,
    name: Seq<char>,
    v: ParsedInputValue,
) -> Option<crate::query_arguments::QueryArgumentsView> {
    if name == "skip"@ {
        match spec_limit(v) {
            Some(l) => Some(crate::query_arguments::QueryArgumentsView { skip: l, ..acc }),
            None => None,
        }
    } else if name == "first"@ {
        match spec_limit(v) {
            Some(l) => Some(crate::query_arguments::QueryArgumentsView { first: l, ..acc }),
            None => None,
        }
    } else if name == "last"@ {
        match spec_limit(v) {
            Some(l) => Some(crate::query_arguments::QueryArgumentsView { last: l, ..acc }),
            None => None,
        }
    } else if name == "after"@ {
        match spec_extract_cursor(model, v) {
            Some(c) => Some(crate::query_arguments::QueryArgumentsView { after: c, ..acc }),
            None => None,
        }
    } else if name == "before"@ {
        match spec_extract_cursor(model, v) {
            Some(c) => Some(crate::query_arguments::QueryArgumentsView { before: c, ..acc }),
            None => None,
        }
    } else if name == "orderBy"@ {
        match spec_order_by(v) {
            Some(o) => Some(
                crate::query_arguments::QueryArgumentsView { order_by: Some(o), ..acc },
            ),
            None => None,
        }
    } else if name == "where"@ {
        if v matches ParsedInputValue::Single(PrismaValue::Null) {
            Some(acc)
        } else if v is Object && spec_filter_extractable(
            field_views(model.fields@),
            v->Object_0@,
        ) {
            Some(
                crate::query_arguments::QueryArgumentsView {
                    filter: Some(
                        spec_extracted_filter(field_views(model.fields@), v->Object_0@),
                    ),
                    ..acc
                },
            )
        } else {
            None
        }
    } else {
        Some(acc)
    }
}

/// The empty query arguments.
pub open spec fn spec_default_args() -> crate::query_arguments::QueryArgumentsView {
    crate::query_arguments::QueryArgumentsView {
        skip: None,
        first: None,
        last: None,
        after: None,
        before: None,
        order_by: None,
        filter: None,
    }
}

/// The query arguments a parsed argument list folds to, left to right.
pub open spec fn spec_fold_args(model: Model, args: Seq<ParsedArgument>) -> Option<
    crate::query_arguments::QueryArgumentsView,
>
    decreases args.len(),
{
    if args.len() == 0 {
        Some(spec_default_args())
    } else {
        match spec_fold_args(model, args.drop_last()) {
            Some(a) => spec_apply_arg(model, a, args.last().name@, args.last().value),
            None => None,
        }
    }
}

pub proof fn lemma_fold_args_extend_none(model: Model, args: Seq<ParsedArgument>, i: int)
    requires
        0 <= i <= args.len(),
        spec_fold_args(model, args.take(i)) is None,
    ensures
        spec_fold_args(model, args) is None,
    decreases args.len() - i,
{
    if i == args.len() {
        assert(args.take(i) =~= args);
    } else {
        assert(args.take(i + 1).drop_last() =~= args.take(i));
        lemma_fold_args_extend_none(model, args, i + 1);
    }
}

pub proof fn lemma_apply_arg_some_independent(
    model: Model,
    a1: crate::query_arguments::QueryArgumentsView,
    a2: crate::query_arguments::QueryArgumentsView,
    name: Seq<char>,
    v: ParsedInputValue,
)
    ensures
        spec_apply_arg(model, a1, name, v) is Some <==> spec_apply_arg(model, a2, name, v)
            is Some,
{
}

/// Whether one named argument fails to fold, which does not depend on what
/// was accumulated before it.
pub open spec fn spec_arg_fails(model: Model, arg: ParsedArgument) -> bool {
    spec_apply_arg(model, spec_default_args(), arg.name@, arg.value) is None
}

pub proof fn lemma_fold_some_no_bad(model: Model, args: Seq<ParsedArgument>, k: int)
    requires
        0 <= k <= args.len(),
        spec_fold_args(model, args.take(k)) is Some,
    ensures
        forall|l: int| 0 <= l < k ==> !spec_arg_fails(model, #[trigger] args[l]),
    decreases k,
{
    if k > 0 {
        assert(args.take(k).drop_last() =~= args.take(k - 1));
        assert(args.take(k).last() == args[k - 1]);
        lemma_apply_arg_some_independent(
            model,
            spec_fold_args(model, args.take(k - 1))->Some_0,
            spec_default_args(),
            args[k - 1].name@,
            args[k - 1].value,
        );
        lemma_fold_some_no_bad(model, args, k - 1);
    }
}

/// The first argument whose fold step fails; meaningful only when one exists.
pub open spec fn first_bad_arg(model: Model, args: Seq<ParsedArgument>) -> int
    decreases args.len(),
{
    if args.len() == 0 {
        0
    } else if spec_arg_fails(model, args[0]) {
        0
    } else {
        1 + first_bad_arg(model, args.skip(1))
    }
}

pub proof fn lemma_first_bad_arg_of(model: Model, args: Seq<ParsedArgument>, k: int)
    requires
        0 <= k < args.len(),
        spec_arg_fails(model, args[k]),
        forall|l: int| 0 <= l < k ==> !spec_arg_fails(model, #[trigger] args[l]),
    ensures
        first_bad_arg(model, args) == k,
    decreases k,
{
    if k > 0 {
        assert forall|l: int| 0 <= l < k - 1 implies !spec_arg_fails(
            model,
            #[trigger] args.skip(1)[l],
        ) by {
            assert(args.skip(1)[l] == args[l + 1]);
        }
        assert(args.skip(1)[k - 1] == args[k]);
        lemma_first_bad_arg_of(model, args.skip(1), k - 1);
    }
}

/// What an argument-extraction failure reports: the error of the first
/// argument whose fold step fails — the cursor or filter error for a cursor
/// or where argument, else an input error naming the argument.
pub open spec fn spec_args_error(
    model: Model,
    args: Seq<ParsedArgument>,
    e: QueryGraphBuilderError,
) -> bool {
    let arg = args[first_bad_arg(model, args)];
    if arg.name@ == "after"@ || arg.name@ == "before"@ {
        spec_cursor_error(model, arg.value, e)
    } else if arg.name@ == "where"@ && arg.value is Object {
        crate::delete_nested::spec_filter_error(model, arg.value->Object_0@, e)
    } else {
        e matches QueryGraphBuilderError::InputError(m) && m@ == arg.name@
    }
}

/// Folds the named arguments of a parsed query into query arguments:
/// pagination limits, cursors, the ordering and the where-filter; unknown
/// names are ignored, later arguments override earlier ones.
pub fn extract_query_args(arguments: Vec<ParsedArgument>, model: &Model) -> (r: Result<
    QueryArguments,
    QueryGraphBuilderError,
>)
    ensures
        r is Ok <==> spec_fold_args(*model, arguments@) is Some,
        r matches Ok(q) ==> Some(q@) == spec_fold_args(*model, arguments@),
        r matches Err(e) ==> spec_args_error(*model, arguments@, e),
{
    let ghost orig = arguments@;
    let mut args = arguments;
    let mut acc = QueryArguments::default();
    proof {
        assert(orig.take(0) =~= Seq::<ParsedArgument>::empty());
        assert(acc@ =~= spec_default_args());
    }
    while args.len() > 0
        invariant
            orig == arguments@,
            args@.len() <= orig.len(),
            args@ == orig.skip(orig.len() - args@.len()),
            spec_fold_args(*model, orig.take(orig.len() - args@.len())) is Some,
            Some(acc@) == spec_fold_args(*model, orig.take(orig.len() - args@.len())),
        decreases args@.len(),
    {
        let ghost k = orig.len() - args@.len();
        let arg = args.remove(0);
        proof {
            assert(arg == orig[k as int]);
            assert(orig.skip(k as int).skip(1) =~= orig.skip(k + 1));
            assert(orig.take(k + 1).drop_last() =~= orig.take(k as int));
            assert(orig.take(k + 1).last() == orig[k as int]);
            reveal_strlit("skip");
            reveal_strlit("first");
            reveal_strlit("last");
            reveal_strlit("after");
            reveal_strlit("before");
            reveal_strlit("orderBy");
            reveal_strlit("where");
            assert("skip"@.len() == 4);
            assert("first"@.len() == 5);
            assert("last"@.len() == 4);
            assert("after"@.len() == 5);
            assert("before"@.len() == 6);
            assert("orderBy"@.len() == 7);
            assert("where"@.len() == 5);
            assert("first"@[0] == 'f');
            assert("after"@[0] == 'a');
            assert("where"@[0] == 'w');
            assert("last"@[0] == 'l');
            assert("skip"@[0] == 's');
        }
        let ParsedArgument { name, value } = arg;
        if name == to_name("skip") {
            match value {
                ParsedInputValue::Single(PrismaValue::Int(n)) => {
                    acc.skip = Some(n);
                },
                ParsedInputValue::Single(PrismaValue::Null) => {
                    acc.skip = None;
                },
                _ => {
                    proof {
                        lemma_fold_args_extend_none(*model, orig, k + 1);
                        lemma_apply_arg_some_independent(
                            *model,
                            spec_fold_args(*model, orig.take(k as int))->Some_0,
                            spec_default_args(),
                            orig[k as int].name@,
                            orig[k as int].value,
                        );
                        lemma_fold_some_no_bad(*model, orig, k as int);
                        lemma_first_bad_arg_of(*model, orig, k as int);
                    }
                    return Err(QueryGraphBuilderError::InputError(name));
                },
            }
        } else if name == to_name("first") {
            match value {
                ParsedInputValue::Single(PrismaValue::Int(n)) => {
                    acc.first = Some(n);
                },
                ParsedInputValue::Single(PrismaValue::Null) => {
                    acc.first = None;
                },
                _ => {
                    proof {
                        lemma_fold_args_extend_none(*model, orig, k + 1);
                        lemma_apply_arg_some_independent(
                            *model,
                            spec_fold_args(*model, orig.take(k as int))->Some_0,
                            spec_default_args(),
                            orig[k as int].name@,
                            orig[k as int].value,
                        );
                        lemma_fold_some_no_bad(*model, orig, k as int);
                        lemma_first_bad_arg_of(*model, orig, k as int);
                    }
                    return Err(QueryGraphBuilderError::InputError(name));
                },
            }
        } else if name == to_name("last") {
            match value {
                ParsedInputValue::Single(PrismaValue::Int(n)) => {
                    acc.last = Some(n);
                },
                ParsedInputValue::Single(PrismaValue::Null) => {
                    acc.last = None;
                },
                _ => {
                    proof {
                        lemma_fold_args_extend_none(*model, orig, k + 1);
                        lemma_apply_arg_some_independent(
                            *model,
                            spec_fold_args(*model, orig.take(k as int))->Some_0,
                            spec_default_args(),
                            orig[k as int].name@,
                            orig[k as int].value,
                        );
                        lemma_fold_some_no_bad(*model, orig, k as int);
                        lemma_first_bad_arg_of(*model, orig, k as int);
                    }
                    return Err(QueryGraphBuilderError::InputError(name));
                },
            }
        } else if name == to_name("after") {
            match extract_cursor(value, model) {
                Ok(c) => {
                    acc.after = c;
                },
                Err(e) => {
                    proof {
                        lemma_fold_args_extend_none(*model, orig, k + 1);
                        lemma_apply_arg_some_independent(
                            *model,
                            spec_fold_args(*model, orig.take(k as int))->Some_0,
                            spec_default_args(),
                            orig[k as int].name@,
                            orig[k as int].value,
                        );
                        lemma_fold_some_no_bad(*model, orig, k as int);
                        lemma_first_bad_arg_of(*model, orig, k as int);
                    }
                    return Err(e);
                },
            }
        } else if name == to_name("before") {
            match extract_cursor(value, model) {
                Ok(c) => {
                    acc.before = c;
                },
                Err(e) => {
                    proof {
                        lemma_fold_args_extend_none(*model, orig, k + 1);
                        lemma_apply_arg_some_independent(
                            *model,
                            spec_fold_args(*model, orig.take(k as int))->Some_0,
                            spec_default_args(),
                            orig[k as int].name@,
                            orig[k as int].value,
                        );
                        lemma_fold_some_no_bad(*model, orig, k as int);
                        lemma_first_bad_arg_of(*model, orig, k as int);
                    }
                    return Err(e);
                },
            }
        } else if name == to_name("orderBy") {
            let entries = match value {
                ParsedInputValue::Object(entries) => entries,
                _ => {
                    proof {
                        lemma_fold_args_extend_none(*model, orig, k + 1);
                        lemma_apply_arg_some_independent(
                            *model,
                            spec_fold_args(*model, orig.take(k as int))->Some_0,
                            spec_default_args(),
                            orig[k as int].name@,
                            orig[k as int].value,
                        );
                        lemma_fold_some_no_bad(*model, orig, k as int);
                        lemma_first_bad_arg_of(*model, orig, k as int);
                    }
                    return Err(QueryGraphBuilderError::InputError(name));
                },
            };
            if entries.len() != 1 {
                proof {
                    lemma_fold_args_extend_none(*model, orig, k + 1);
                    lemma_apply_arg_some_independent(
                        *model,
                        spec_fold_args(*model, orig.take(k as int))->Some_0,
                        spec_default_args(),
                        orig[k as int].name@,
                        orig[k as int].value,
                    );
                    lemma_fold_some_no_bad(*model, orig, k as int);
                    lemma_first_bad_arg_of(*model, orig, k as int);
                }
                return Err(QueryGraphBuilderError::InputError(name));
            }
            match &entries[0].1 {
                ParsedInputValue::Single(PrismaValue::Boolean(descending)) => {
                    let sort_order = if *descending {
                        SortOrder::Descending
                    } else {
                        SortOrder::Ascending
                    };
                    acc.order_by = Some(OrderBy { field: entries[0].0.clone(), sort_order });
                },
                _ => {
                    proof {
                        lemma_fold_args_extend_none(*model, orig, k + 1);
                        lemma_apply_arg_some_independent(
                            *model,
                            spec_fold_args(*model, orig.take(k as int))->Some_0,
                            spec_default_args(),
                            orig[k as int].name@,
                            orig[k as int].value,
                        );
                        lemma_fold_some_no_bad(*model, orig, k as int);
                        lemma_first_bad_arg_of(*model, orig, k as int);
                    }
                    return Err(QueryGraphBuilderError::InputError(name));
                },
            }
        } else if name == to_name("where") {
            match value {
                ParsedInputValue::Single(PrismaValue::Null) => {},
                ParsedInputValue::Object(entries) => {
                    match crate::delete_nested::extract_filter(&entries, model) {
                        Ok(f) => {
                            acc.filter = Some(f);
                        },
                        Err(e) => {
                            proof {
                                lemma_fold_args_extend_none(*model, orig, k + 1);
                                lemma_apply_arg_some_independent(
                                    *model,
                                    spec_fold_args(*model, orig.take(k as int))->Some_0,
                                    spec_default_args(),
                                    orig[k as int].name@,
                                    orig[k as int].value,
                                );
                                lemma_fold_some_no_bad(*model, orig, k as int);
                                lemma_first_bad_arg_of(*model, orig, k as int);
                            }
                            return Err(e);
                        },
                    }
                },
                _ => {
                    proof {
                        lemma_fold_args_extend_none(*model, orig, k + 1);
                        lemma_apply_arg_some_independent(
                            *model,
                            spec_fold_args(*model, orig.take(k as int))->Some_0,
                            spec_default_args(),
                            orig[k as int].name@,
                            orig[k as int].value,
                        );
                        lemma_fold_some_no_bad(*model, orig, k as int);
                        lemma_first_bad_arg_of(*model, orig, k as int);
                    }
                    return Err(QueryGraphBuilderError::InputError(name));
                },
            }
        }
    }
    proof {
        assert(orig.take(orig.len() as int) =~= orig);
    }
    Ok(acc)
}

/// One argument name as an owned string.
fn to_name(s: &str) -> (r: String)
    ensures
        r@ == s@,
{
    s.to_owned()
}

} // verus!
