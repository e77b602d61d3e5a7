//! Parsed input values handed down from the query document: maps, lists and
//! scalars, with the shape assertions the builders rely on.
use vstd::prelude::*;

use crate::error::QueryGraphBuilderError;
use crate::prisma_value::{PrismaValue, ValueView};

verus! {

/// One already-parsed input value.
#[derive(Debug)]
pub enum ParsedInputValue {
    Single(PrismaValue),
    Object(Vec<(String, ParsedInputValue)>),
    List(Vec<ParsedInputValue>),
}

/// Mathematical model of a `ParsedInputValue`.
pub enum ParsedInputValueView {
    Single(ValueView),
    Object(Seq<(Seq<char>, ParsedInputValueView)>),
    List(Seq<ParsedInputValueView>),
}

impl View for ParsedInputValue {
    type V = ParsedInputValueView;

    open spec fn view(&self) -> ParsedInputValueView
        decreases self,
    {
        match self {
            ParsedInputValue::Single(v) => ParsedInputValueView::Single(v@),
            ParsedInputValue::Object(entries) => ParsedInputValueView::Object(
                Seq::new(
                    entries@.len(),
                    |i: int|
                        if 0 <= i < entries@.len() {
                            (entries@[i].0@, entries@[i].1@)
                        } else {
                            (Seq::empty(), ParsedInputValueView::Single(ValueView::Null))
                        },
                ),
            ),
            ParsedInputValue::List(items) => ParsedInputValueView::List(
                Seq::new(
                    items@.len(),
                    |i: int|
                        if 0 <= i < items@.len() {
                            items@[i]@
                        } else {
                            ParsedInputValueView::Single(ValueView::Null)
                        },
                ),
            ),
        }
    }
}

/// Coerces a value into a list: a list stays itself, anything else becomes
/// the one-element list of it.
pub fn coerce_vec(value: ParsedInputValue) -> (r: Vec<ParsedInputValue>)
    ensures
        value matches ParsedInputValue::List(items) ==> r == items,
        !(value is List) ==> r@.len() == 1 && r@[0] == value,
{
    match value {
        ParsedInputValue::List(items) => items,
        other => {
            let mut out: Vec<ParsedInputValue> = Vec::new();
            out.push(other);
            out
        },
    }
}

/// A map has exactly the expected number of entries; anything else is an
/// input-shape fault.
pub fn assert_size(map: &Vec<(String, ParsedInputValue)>, expected: usize) -> (r: Result<
    (),
    QueryGraphBuilderError,
>)
    ensures
        r is Ok <==> map@.len() == expected,
        r matches Err(e) ==> (e matches QueryGraphBuilderError::InputError(m) && m@
            == "the map holds a different number of entries than expected"@),
{
    if map.len() == expected {
        Ok(())
    } else {
        Err(
            QueryGraphBuilderError::InputError(
                "the map holds a different number of entries than expected".to_owned(),
            ),
        )
    }
}

/// No entry of the map is a null scalar; anything else is an input-shape
/// fault.
pub fn assert_non_null(map: &Vec<(String, ParsedInputValue)>) -> (r: Result<
    (),
    QueryGraphBuilderError,
>)
    ensures
        r is Ok <==> forall|i: int| 0 <= i < map@.len() ==> !((#[trigger] map@[i]).1 matches
            ParsedInputValue::Single(v) && v is Null),
        r matches Err(e) ==> (e matches QueryGraphBuilderError::InputError(m) && m@
            == "a null value is not allowed here"@),
{
    let mut i: usize = 0;
    while i < map.len()
        invariant
            i <= map@.len(),
            forall|j: int| 0 <= j < i ==> !((#[trigger] map@[j]).1 matches
                ParsedInputValue::Single(v) && v is Null),
        decreases map.len() - i,
    {
        let is_null = match &map[i].1 {
            ParsedInputValue::Single(PrismaValue::Null) => true,
            _ => false,
        };
        if is_null {
            return Err(
                QueryGraphBuilderError::InputError("a null value is not allowed here".to_owned()),
            );
        }
        i += 1;
    }
    Ok(())
}

} // verus!
