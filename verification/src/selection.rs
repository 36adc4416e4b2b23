//! The selection formatter: what to ask one subgraph for.
//!
//! A requested selection set is rewritten into the compact text of the
//! sub-query that is sent upstream. Without federation metadata every
//! requested field is written as it was asked for. With it, only the fields
//! that the target subgraph can resolve are kept, level by level, and the
//! join key of the subgraph is added so that the answer can be stitched back
//! to its parent.

use vstd::prelude::*;
use crate::text::{find_first, find_pair, join, join_strings, lemma_find_first_at, lemma_find_first_none, pair_value, same_text, views};

verus! {

/// One requested field: its name, its arguments as pairs of a name and the
/// literal text of the value, and the fields requested below it. The
/// arguments are absent where they could not be resolved.
#[derive(Debug, PartialEq, Eq)]
pub struct SelectionField {
    pub name: String,
    pub arguments: Option<Vec<(String, String)>>,
    pub selection_set: Vec<SelectionField>,
}

/// The join key that a subgraph uses for one federated type. A join type
/// without a base address stands for the subgraph with the empty address.
#[derive(Clone, Debug, PartialEq, Eq)]
pub struct JoinType {
    pub base_url: Option<String>,
    pub key: String,
}

/// The fields of one type that the subgraph at `url` can resolve, each with
/// the name of its own type.
#[derive(Clone, Debug, PartialEq, Eq)]
pub struct SubgraphFields {
    pub url: String,
    pub fields: Vec<(String, String)>,
}

/// The federation metadata of one type: which subgraph resolves which of
/// its fields, and the join key of each subgraph. Where a type or an address
/// is listed more than once, the first listing counts.
#[derive(Clone, Debug, PartialEq, Eq)]
pub struct TypeSubgraphs {
    pub name: String,
    pub subgraphs: Vec<SubgraphFields>,
    pub join_types: Vec<JoinType>,
}

/// The join key that is used where none is configured.
pub open spec fn default_join_key() -> Seq<char> {
    "id"@
}

/// Selects the metadata of the type called `name`.
pub open spec fn is_type(name: Seq<char>) -> spec_fn(TypeSubgraphs) -> bool {
    |t: TypeSubgraphs| t.name@ == name
}

/// Selects the field list of the subgraph at `url`.
pub open spec fn is_subgraph(url: Seq<char>) -> spec_fn(SubgraphFields) -> bool {
    |s: SubgraphFields| s.url@ == url
}

/// The address that a join type is configured for.
pub open spec fn join_type_url(join_type: JoinType) -> Seq<char> {
    match join_type.base_url {
        Some(url) => url@,
        None => Seq::empty(),
    }
}

/// Selects the join type of the subgraph at `url`.
pub open spec fn is_join_type(url: Seq<char>) -> spec_fn(JoinType) -> bool {
    |j: JoinType| join_type_url(j) == url
}

/// The type of the field `name` of `field_type`, if the subgraph at `url`
/// can resolve that field.
pub open spec fn owned_field_type(
    meta: Seq<TypeSubgraphs>,
    field_type: Seq<char>,
    url: Seq<char>,
    name: Seq<char>,
) -> Option<Seq<char>> {
    match find_first(meta, is_type(field_type)) {
        Some(t) => match find_first(t.subgraphs@, is_subgraph(url)) {
            Some(s) => pair_value(s.fields@, name),
            None => None,
        },
        None => None,
    }
}

/// The join key of the subgraph at `url` for `field_type`.
pub open spec fn join_key(meta: Seq<TypeSubgraphs>, field_type: Seq<char>, url: Seq<char>) -> Seq<
    char,
> {
    match find_first(meta, is_type(field_type)) {
        Some(t) => match find_first(t.join_types@, is_join_type(url)) {
            Some(j) => j.key@,
            None => default_join_key(),
        },
        None => default_join_key(),
    }
}

/// One argument as it is written in a query.
pub open spec fn render_argument(argument: (String, String)) -> Seq<char> {
    argument.0@ + ": "@ + argument.1@
}

/// The arguments of a field as they are written behind its name: nothing
/// where there are none or where they could not be resolved.
pub open spec fn render_arguments(arguments: Option<Vec<(String, String)>>) -> Seq<char> {
    match arguments {
        Some(list) => if list@.len() == 0 {
            Seq::empty()
        } else {
            "("@ + join(list@.map_values(|a: (String, String)| render_argument(a)), ","@) + ")"@
        },
        None => Seq::empty(),
    }
}

/// The text of one field: name, arguments and, after a space, the
/// selection below it where that is not empty.
pub open spec fn render_field(
    field: SelectionField,
    meta: Option<Seq<TypeSubgraphs>>,
    field_type: Option<Seq<char>>,
    url: Seq<char>,
) -> Seq<char>
    decreases field, 0nat,
{
    field.name@ + render_arguments(field.arguments) + match render_selection_set(
        field.selection_set@,
        meta,
        field_type,
        url,
    ) {
        Some(set) => " "@ + set,
        None => Seq::empty(),
    }
}

/// The texts of the fields of `set` that the subgraph at `url` can resolve
/// for `field_type`, each formatted for its own type.
pub open spec fn owned_parts(
    set: Seq<SelectionField>,
    meta: Seq<TypeSubgraphs>,
    field_type: Seq<char>,
    url: Seq<char>,
) -> Seq<Seq<char>>
    decreases set, 1nat,
{
    if set.len() == 0 {
        Seq::empty()
    } else {
        let before = owned_parts(set.drop_last(), meta, field_type, url);
        match owned_field_type(meta, field_type, url, set.last().name@) {
            Some(child_type) => before.push(
                render_field(set.last(), Some(meta), Some(child_type), url),
            ),
            None => before,
        }
    }
}

/// The texts of all fields of `set`, each written as it was asked for.
pub open spec fn verbatim_parts(
    set: Seq<SelectionField>,
    meta: Option<Seq<TypeSubgraphs>>,
    url: Seq<char>,
) -> Seq<Seq<char>>
    decreases set, 1nat,
{
    if set.len() == 0 {
        Seq::empty()
    } else {
        verbatim_parts(set.drop_last(), meta, url).push(render_field(set.last(), meta, None, url))
    }
}

/// The selections that are written between the braces.
pub open spec fn selection_parts(
    set: Seq<SelectionField>,
    meta: Option<Seq<TypeSubgraphs>>,
    field_type: Option<Seq<char>>,
    url: Seq<char>,
) -> Seq<Seq<char>>
    decreases set, 2nat,
{
    if field_type is Some && meta is Some {
        let owned = owned_parts(set, meta->0, field_type->0, url);
        if owned.len() > 0 {
            owned.push(join_key(meta->0, field_type->0, url))
        } else {
            owned
        }
    } else {
        verbatim_parts(set, meta, url)
    }
}

/// The text of a selection set, or nothing where no selection is left.
pub open spec fn render_selection_set(
    set: Seq<SelectionField>,
    meta: Option<Seq<TypeSubgraphs>>,
    field_type: Option<Seq<char>>,
    url: Seq<char>,
) -> Option<Seq<char>>
    decreases set, 3nat,
{
    let parts = selection_parts(set, meta, field_type, url);
    if parts.len() == 0 {
        None
    } else {
        Some("{ "@ + join(parts, " "@) + " }"@)
    }
}

/// The metadata as the contracts see it.
pub open spec fn meta_view(meta: Option<&Vec<TypeSubgraphs>>) -> Option<Seq<TypeSubgraphs>> {
    match meta {
        Some(m) => Some(m@),
        None => None,
    }
}

/// An optional text as the contracts see it.
pub open spec fn text_view(text: Option<&str>) -> Option<Seq<char>> {
    match text {
        Some(t) => Some(t@),
        None => None,
    }
}

/// Finds the metadata of the type called `name`.
pub fn find_type<'a>(meta: &'a Vec<TypeSubgraphs>, name: &str) -> (r: Option<&'a TypeSubgraphs>)
    ensures
        match r {
            Some(t) => find_first(meta@, is_type(name@)) == Some(*t),
            None => find_first(meta@, is_type(name@)) is None,
        },
{
    let mut i: usize = 0;
    while i < meta.len()
        invariant
            i <= meta.len(),
            forall|j: int| 0 <= j < i ==> !is_type(name@)(#[trigger] meta@[j]),
        decreases meta.len() - i,
    {
        if same_text(meta[i].name.as_str(), name) {
            proof {
                lemma_find_first_at(meta@, is_type(name@), i as int);
            }
            return Some(&meta[i]);
        }
        i += 1;
    }
    proof {
        lemma_find_first_none(meta@, is_type(name@));
    }
    None
}

/// Finds the field list of the subgraph at `url`.
pub fn find_subgraph<'a>(subgraphs: &'a Vec<SubgraphFields>, url: &str) -> (r: Option<
    &'a SubgraphFields,
>)
    ensures
        match r {
            Some(s) => find_first(subgraphs@, is_subgraph(url@)) == Some(*s),
            None => find_first(subgraphs@, is_subgraph(url@)) is None,
        },
{
    let mut i: usize = 0;
    while i < subgraphs.len()
        invariant
            i <= subgraphs.len(),
            forall|j: int| 0 <= j < i ==> !is_subgraph(url@)(#[trigger] subgraphs@[j]),
        decreases subgraphs.len() - i,
    {
        if same_text(subgraphs[i].url.as_str(), url) {
            proof {
                lemma_find_first_at(subgraphs@, is_subgraph(url@), i as int);
            }
            return Some(&subgraphs[i]);
        }
        i += 1;
    }
    proof {
        lemma_find_first_none(subgraphs@, is_subgraph(url@));
    }
    None
}

/// Finds the join type of the subgraph at `url`.
pub fn find_join_type<'a>(join_types: &'a Vec<JoinType>, url: &str) -> (r: Option<&'a JoinType>)
    ensures
        match r {
            Some(j) => find_first(join_types@, is_join_type(url@)) == Some(*j),
            None => find_first(join_types@, is_join_type(url@)) is None,
        },
{
    let mut i: usize = 0;
    while i < join_types.len()
        invariant
            i <= join_types.len(),
            forall|j: int| 0 <= j < i ==> !is_join_type(url@)(#[trigger] join_types@[j]),
        decreases join_types.len() - i,
    {
        let found = match &join_types[i].base_url {
            Some(base) => same_text(base.as_str(), url),
            None => same_text("", url),
        };
        proof {
            reveal_strlit("");
            assert(""@ =~= Seq::<char>::empty());
        }
        if found {
            proof {
                lemma_find_first_at(join_types@, is_join_type(url@), i as int);
            }
            return Some(&join_types[i]);
        }
        i += 1;
    }
    proof {
        lemma_find_first_none(join_types@, is_join_type(url@));
    }
    None
}

/// Writes the arguments of a field as they stand behind its name: in
/// parentheses, each as `name: value`, with commas between them. Nothing is
/// written for a field without arguments, nor for one whose arguments could
/// not be resolved.
pub fn format_selection_field_arguments(field: &SelectionField) -> (out: String)
    ensures
        out@ == render_arguments(field.arguments),
{
    match &field.arguments {
        None => String::new(),
        Some(list) => {
            if list.len() == 0 {
                return String::new();
            }
            let ghost rendered = list@.map_values(|a: (String, String)| render_argument(a));
            let mut parts: Vec<String> = Vec::new();
            let mut i: usize = 0;
            while i < list.len()
                invariant
                    i <= list.len(),
                    rendered == list@.map_values(|a: (String, String)| render_argument(a)),
                    views(parts@) == rendered.take(i as int),
                decreases list.len() - i,
            {
                let mut part = String::new();
                part.append(list[i].0.as_str());
                part.append(": ");
                part.append(list[i].1.as_str());
                assert(part@ =~= render_argument(list@[i as int]));
                assert(rendered[i as int] == render_argument(list@[i as int]));
                let ghost before = views(parts@);
                parts.push(part);
                assert(views(parts@) =~= before.push(part@));
                assert(before.push(part@) =~= rendered.take(i as int + 1));
                i += 1;
            }
            assert(rendered.take(list.len() as int) =~= rendered);
            let joined = join_strings(&parts, ",");
            let mut out = String::new();
            out.append("(");
            out.append(joined.as_str());
            out.append(")");
            assert(out@ =~= "("@ + joined@ + ")"@);
            out
        },
    }
}

/// Writes one field for the subgraph at `url`: its name, its arguments and,
/// after a space, the selection below it, where one is left. `field_type` is
/// the type of the field where federation metadata applies to it.
pub fn format_selection_field(
    field: &SelectionField,
    type_subgraph_fields: Option<&Vec<TypeSubgraphs>>,
    field_type: Option<&str>,
    url: &str,
) -> (out: String)
    ensures
        out@ == render_field(*field, meta_view(type_subgraph_fields), text_view(field_type), url@),
    decreases *field, 0nat,
{
    let arguments = format_selection_field_arguments(field);
    let selection_set = format_selection_set(
        &field.selection_set,
        type_subgraph_fields,
        field_type,
        url,
    );
    let mut out = String::new();
    out.append(field.name.as_str());
    out.append(arguments.as_str());
    match selection_set {
        Some(set) => {
            out.append(" ");
            out.append(set.as_str());
            assert(out@ =~= field.name@ + arguments@ + (" "@ + set@));
        },
        None => {
            assert(out@ =~= field.name@ + arguments@ + Seq::<char>::empty());
        },
    }
    out
}

/// Formats a requested selection set for the subgraph at `url`.
///
/// Where both a field type and federation metadata are given, only the
/// fields that the subgraph can resolve for that type are kept, each
/// formatted for its own type, and the join key of the subgraph follows them;
/// the key is `id` unless one is configured. Otherwise every requested field
/// is written as it was asked for. The selections stand between braces with
/// single spaces between them. Nothing is returned where no selection is
/// left: braces are never written around nothing, and no join key is written
/// alone.
pub fn format_selection_set(
    selection_set: &Vec<SelectionField>,
    type_subgraph_fields: Option<&Vec<TypeSubgraphs>>,
    field_type: Option<&str>,
    url: &str,
) -> (out: Option<String>)
    ensures
        match out {
            Some(text) => render_selection_set(
                selection_set@,
                meta_view(type_subgraph_fields),
                text_view(field_type),
                url@,
            ) == Some(text@),
            None => render_selection_set(
                selection_set@,
                meta_view(type_subgraph_fields),
                text_view(field_type),
                url@,
            ) is None,
        },
    decreases *selection_set, 3nat,
{
    let ghost set = selection_set@;
    let mut parts: Vec<String> = Vec::new();
    match (field_type, type_subgraph_fields) {
        (Some(owner), Some(meta)) => {
            let type_entry = find_type(meta, owner);
            let fields: Option<&Vec<(String, String)>> = match type_entry {
                Some(t) => match find_subgraph(&t.subgraphs, url) {
                    Some(s) => Some(&s.fields),
                    None => None,
                },
                None => None,
            };
            let mut i: usize = 0;
            while i < selection_set.len()
                invariant
                    i <= selection_set.len(),
                    set == selection_set@,
                    match fields {
                        Some(list) => forall|name: Seq<char>|
                            #![trigger owned_field_type(meta@, owner@, url@, name)]
                            owned_field_type(meta@, owner@, url@, name) == pair_value(
                                list@,
                                name,
                            ),
                        None => forall|name: Seq<char>|
                            #![trigger owned_field_type(meta@, owner@, url@, name)]
                            owned_field_type(meta@, owner@, url@, name) is None,
                    },
                    views(parts@) == owned_parts(set.take(i as int), meta@, owner@, url@),
                decreases selection_set.len() - i,
            {
                let field = &selection_set[i];
                proof {
                    let upto = set.take(i as int + 1);
                    assert(upto.drop_last() =~= set.take(i as int));
                    assert(upto.last() == *field);
                }
                let child_type: Option<&str> = match fields {
                    Some(list) => match find_pair(list, field.name.as_str()) {
                        Some(child) => Some(child.as_str()),
                        None => None,
                    },
                    None => None,
                };
                match child_type {
                    Some(child) => {
                        let part = format_selection_field(field, Some(meta), Some(child), url);
                        parts.push(part);
                        assert(views(parts@) =~= owned_parts(
                            set.take(i as int),
                            meta@,
                            owner@,
                            url@,
                        ).push(part@));
                    },
                    None => {},
                }
                i += 1;
            }
            assert(set.take(selection_set.len() as int) =~= set);
            if parts.len() > 0 {
                let ghost owned = views(parts@);
                let key: String = match type_entry {
                    Some(t) => match find_join_type(&t.join_types, url) {
                        Some(j) => j.key.clone(),
                        None => String::from_str("id"),
                    },
                    None => String::from_str("id"),
                };
                assert(key@ == join_key(meta@, owner@, url@));
                parts.push(key);
                assert(views(parts@) =~= owned.push(key@));
            }
        },
        _ => {
            let mut i: usize = 0;
            while i < selection_set.len()
                invariant
                    i <= selection_set.len(),
                    set == selection_set@,
                    !(field_type is Some && type_subgraph_fields is Some),
                    views(parts@) == verbatim_parts(
                        set.take(i as int),
                        meta_view(type_subgraph_fields),
                        url@,
                    ),
                decreases selection_set.len() - i,
            {
                let field = &selection_set[i];
                proof {
                    let upto = set.take(i as int + 1);
                    assert(upto.drop_last() =~= set.take(i as int));
                    assert(upto.last() == *field);
                }
                let part = format_selection_field(field, type_subgraph_fields, None, url);
                parts.push(part);
                assert(views(parts@) =~= verbatim_parts(
                    set.take(i as int),
                    meta_view(type_subgraph_fields),
                    url@,
                ).push(part@));
                i += 1;
            }
            assert(set.take(selection_set.len() as int) =~= set);
        },
    }
    assert(views(parts@) == selection_parts(
        set,
        meta_view(type_subgraph_fields),
        text_view(field_type),
        url@,
    ));
    if parts.len() == 0 {
        return None;
    }
    let joined = join_strings(&parts, " ");
    let mut out = String::new();
    out.append("{ ");
    out.append(joined.as_str());
    out.append(" }");
    assert(out@ =~= "{ "@ + joined@ + " }"@);
    Some(out)
}

/// Without federation metadata the text of a field depends on the field
/// alone, not on the field type or the target that is named.
pub proof fn lemma_plain_field_is_stable(
    field: SelectionField,
    first_type: Option<Seq<char>>,
    first_url: Seq<char>,
    second_type: Option<Seq<char>>,
    second_url: Seq<char>,
)
    ensures
        render_field(field, None, first_type, first_url) == render_field(
            field,
            None,
            second_type,
            second_url,
        ),
    decreases field, 0nat,
{
    lemma_plain_format_is_stable(
        field.selection_set@,
        first_type,
        first_url,
        second_type,
        second_url,
    );
}

/// Without federation metadata every field is written as it was asked for,
/// whatever target is named.
pub proof fn lemma_plain_parts_are_stable(
    set: Seq<SelectionField>,
    first_url: Seq<char>,
    second_url: Seq<char>,
)
    ensures
        verbatim_parts(set, None, first_url) == verbatim_parts(set, None, second_url),
    decreases set, 1nat,
{
    if set.len() > 0 {
        lemma_plain_parts_are_stable(set.drop_last(), first_url, second_url);
        lemma_plain_field_is_stable(set.last(), None, first_url, None, second_url);
    }
}

/// Formatting a selection set without federation metadata gives the same
/// text every time: the result is a function of the selection set alone.
pub proof fn lemma_plain_format_is_stable(
    set: Seq<SelectionField>,
    first_type: Option<Seq<char>>,
    first_url: Seq<char>,
    second_type: Option<Seq<char>>,
    second_url: Seq<char>,
)
    ensures
        render_selection_set(set, None, first_type, first_url) == render_selection_set(
            set,
            None,
            second_type,
            second_url,
        ),
    decreases set, 3nat,
{
    lemma_plain_parts_are_stable(set, first_url, second_url);
}

/// As many selections are kept as there are requested fields that the
/// subgraph can resolve; none is kept where it can resolve none.
pub proof fn lemma_owned_parts_empty(
    set: Seq<SelectionField>,
    meta: Seq<TypeSubgraphs>,
    field_type: Seq<char>,
    url: Seq<char>,
)
    ensures
        owned_parts(set, meta, field_type, url).len() <= set.len(),
        owned_parts(set, meta, field_type, url).len() == 0 <==> forall|i: int|
            0 <= i < set.len() ==> owned_field_type(meta, field_type, url, #[trigger] set[i].name@)
                is None,
    decreases set.len(),
{
    if set.len() > 0 {
        let before = set.drop_last();
        lemma_owned_parts_empty(before, meta, field_type, url);
        if owned_parts(set, meta, field_type, url).len() == 0 {
            assert forall|i: int| 0 <= i < set.len() implies owned_field_type(
                meta,
                field_type,
                url,
                #[trigger] set[i].name@,
            ) is None by {
                if i < set.len() - 1 {
                    assert(before[i] == set[i]);
                }
            }
        } else {
            if owned_field_type(meta, field_type, url, set.last().name@) is None {
                let i = choose|i: int|
                    0 <= i < before.len() && !(owned_field_type(
                        meta,
                        field_type,
                        url,
                        #[trigger] before[i].name@,
                    ) is None);
                assert(before[i] == set[i]);
            }
        }
    }
}

/// With federation metadata for the field's type, no selection is produced
/// exactly when the target subgraph can resolve none of the requested fields:
/// neither empty braces nor a join key alone are ever written.
pub proof fn lemma_unowned_selection_is_suppressed(
    set: Seq<SelectionField>,
    meta: Seq<TypeSubgraphs>,
    field_type: Seq<char>,
    url: Seq<char>,
)
    ensures
        render_selection_set(set, Some(meta), Some(field_type), url) is None <==> forall|i: int|
            0 <= i < set.len() ==> owned_field_type(meta, field_type, url, #[trigger] set[i].name@)
                is None,
{
    lemma_owned_parts_empty(set, meta, field_type, url);
}

/// Where the target subgraph can resolve at least one requested field, the
/// selection that is written last is the join key of the subgraph.
pub proof fn lemma_join_key_is_last(
    set: Seq<SelectionField>,
    meta: Seq<TypeSubgraphs>,
    field_type: Seq<char>,
    url: Seq<char>,
)
    requires
        render_selection_set(set, Some(meta), Some(field_type), url) is Some,
    ensures
        selection_parts(set, Some(meta), Some(field_type), url).len() >= 2,
        selection_parts(set, Some(meta), Some(field_type), url).last() == join_key(
            meta,
            field_type,
            url,
        ),
{
}

/// Without a field type or without metadata, a selection is produced exactly
/// when at least one field is requested.
pub proof fn lemma_plain_selection_is_empty(
    set: Seq<SelectionField>,
    meta: Option<Seq<TypeSubgraphs>>,
    field_type: Option<Seq<char>>,
    url: Seq<char>,
)
    requires
        meta is None || field_type is None,
    ensures
        render_selection_set(set, meta, field_type, url) is None <==> set.len() == 0,
        verbatim_parts(set, meta, url).len() == set.len(),
    decreases set.len(),
{
    if set.len() > 0 {
        lemma_plain_selection_is_empty(set.drop_last(), meta, field_type, url);
    }
}

} // verus!
