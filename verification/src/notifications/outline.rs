//! Partials in templates: which of them bring which others in.

use vstd::prelude::*;

use handlebars::template::{Parameter, TemplateElement};
use handlebars::Template;
use serde_json::Value;

use crate::text::opt_view;

verus! {

/// A template of the `handlebars` crate.
#[verifier::external_type_specification]
#[verifier::external_body]
pub struct ExTemplate(handlebars::Template);

/// An element of a template, as far as partials go. A name that is only known
/// when the template is filled in is none.
pub enum Item {
    /// An element without a template inside.
    Plain,
    /// Templates that are filled in where they stand, or not at all.
    Block { body: Seq<Item>, inverse: Seq<Item> },
    /// A partial that is defined, and not filled in where it stands.
    Inline { name: Option<Seq<char>>, body: Seq<Item> },
    /// A partial that is brought in, and the template that it is given.
    Partial { name: Option<Seq<char>>, block: Seq<Item> },
}

/// The elements of a template that a text stands for, as the `handlebars` crate
/// reads it; nothing where it stands for none.
pub uninterp spec fn parsed_template(text: Seq<char>) -> Option<Seq<Item>>;

/// The elements that a template of the `handlebars` crate holds.
pub uninterp spec fn held_template(template: handlebars::Template) -> Seq<Item>;

/// An element of a template by its variant, the templates in it still in the
/// crate's hands.
pub enum Part {
    Plain,
    Block { body: Option<handlebars::Template>, inverse: Option<handlebars::Template> },
    Inline { name: Option<String>, body: Option<handlebars::Template> },
    Partial { name: Option<String>, block: Option<handlebars::Template> },
}

/// The elements that a template holds, where there is one.
pub open spec fn held_body(body: Option<handlebars::Template>) -> Seq<Item> {
    match body {
        Some(template) => held_template(template),
        None => seq![],
    }
}

/// An element by its variant, as mathematics.
pub open spec fn part_item(part: Part) -> Item {
    match part {
        Part::Plain => Item::Plain,
        Part::Block { body, inverse } => Item::Block {
            body: held_body(body),
            inverse: held_body(inverse),
        },
        Part::Inline { name, body } => Item::Inline {
            name: opt_view(name),
            body: held_body(body),
        },
        Part::Partial { name, block } => Item::Partial {
            name: opt_view(name),
            block: held_body(block),
        },
    }
}

/// Elements by their variants, as mathematics.
pub open spec fn part_items(parts: Seq<Part>) -> Seq<Item> {
    parts.map_values(|part: Part| part_item(part))
}

/// `Template::compile` of the `handlebars` crate, which is also how the crate
/// reads a template that it fills in. How it reads a text is not stated here, only
/// that the text decides what it reads.
#[verifier::external_body]
fn compile(text: &str) -> (template: Option<Template>)
    ensures
        match template {
            Some(template) => parsed_template(text@) == Some(held_template(template)),
            None => parsed_template(text@) is None,
        },
{
    Template::compile(text).ok()
}

/// The variants of `handlebars::template::TemplateElement`, told apart: a template
/// holds what the variants of its elements and the templates in them hold. The name
/// of a partial that is brought in is what `Parameter::as_name` gives, and that of
/// one that is defined is its first parameter, where that is a text.
#[verifier::external_body]
fn parts_of(template: Template) -> (parts: Vec<Part>)
    ensures
        held_template(template) == part_items(parts@),
{
    template.elements.into_iter().map(|element| match element {
        TemplateElement::HelperBlock(h) => Part::Block { body: h.template, inverse: h.inverse },
        TemplateElement::DecoratorBlock(d) => Part::Inline { name: match d.params.first() {
            Some(Parameter::Literal(Value::String(name))) => Some(name.clone()),
            _ => None,
        }, body: d.template },
        TemplateElement::PartialExpression(p) | TemplateElement::PartialBlock(p) =>
            Part::Partial { name: p.name.as_name().map(str::to_owned), block: p.template },
        _ => Part::Plain,
    }).collect()
}

/// The names of the partials that elements bring in where they stand.
pub open spec fn brought_names(items: Seq<Item>) -> Seq<Option<Seq<char>>>
    decreases items,
{
    if items.len() == 0 {
        seq![]
    } else {
        brought_names(items.drop_last()) + item_names(items.last())
    }
}

/// The names of the partials that an element brings in where it stands.
pub open spec fn item_names(item: Item) -> Seq<Option<Seq<char>>>
    decreases item,
{
    match item {
        Item::Plain => seq![],
        Item::Block { body, inverse } => brought_names(body) + brought_names(inverse),
        Item::Inline { .. } => seq![],
        Item::Partial { name, block } => seq![name] + brought_names(block),
    }
}

/// A partial that is defined: its name, and those of the partials that it brings
/// in.
pub struct InlineView {
    pub name: Option<Seq<char>>,
    pub brings: Seq<Option<Seq<char>>>,
}

/// The partials that elements define, wherever they stand.
pub open spec fn defined_partials(items: Seq<Item>) -> Seq<InlineView>
    decreases items,
{
    if items.len() == 0 {
        seq![]
    } else {
        defined_partials(items.drop_last()) + item_partials(items.last())
    }
}

/// The partials that an element defines.
pub open spec fn item_partials(item: Item) -> Seq<InlineView>
    decreases item,
{
    match item {
        Item::Plain => seq![],
        Item::Block { body, inverse } => defined_partials(body) + defined_partials(inverse),
        Item::Inline { name, body } => seq![InlineView { name, brings: brought_names(body) }]
            + defined_partials(body),
        Item::Partial { block, .. } => defined_partials(block),
    }
}

/// Whether two names may be the same.
pub open spec fn may_be_same(a: Option<Seq<char>>, b: Option<Seq<char>>) -> bool {
    a is None || b is None || a == b
}

/// Whether a partial of a name may be among those that are brought in.
pub open spec fn may_bring(brings: Seq<Option<Seq<char>>>, name: Option<Seq<char>>) -> bool {
    exists|i: int| 0 <= i < brings.len() && may_be_same(#[trigger] brings[i], name)
}

/// The partials that may be brought in by some names.
pub open spec fn brought_by(brings: Seq<Option<Seq<char>>>, partials: Seq<InlineView>) -> Set<int> {
    Set::new(|k: int| 0 <= k < partials.len() && may_bring(brings, partials[k].name))
}

/// Whether one of some partials may bring another in.
pub open spec fn is_below(above: Set<int>, partials: Seq<InlineView>, k: int) -> bool {
    exists|j: int|
        0 <= j < partials.len() && #[trigger] above.contains(j) && may_bring(
            partials[j].brings,
            partials[k].name,
        )
}

/// The partials that may be brought in by some of them.
pub open spec fn one_below(above: Set<int>, partials: Seq<InlineView>) -> Set<int> {
    Set::new(|k: int| 0 <= k < partials.len() && is_below(above, partials, k))
}

/// The partials that may be brought in at a depth: at depth zero by the template
/// itself, and at every other by a partial that may be brought in one above.
pub open spec fn brought_at(
    brings: Seq<Option<Seq<char>>>,
    partials: Seq<InlineView>,
    depth: nat,
) -> Set<int>
    decreases depth,
{
    if depth == 0 {
        brought_by(brings, partials)
    } else {
        one_below(brought_at(brings, partials, (depth - 1) as nat), partials)
    }
}

/// Whether partials may bring each other in without end: so deep that one of them
/// stands within itself, as there are not so many of them.
pub open spec fn may_never_end(items: Seq<Item>) -> bool {
    let partials = defined_partials(items);
    exists|k: int| #[trigger]
        brought_at(brought_names(items), partials, partials.len()).contains(k)
}

/// Whether a text stands for a template that may bring a partial into itself.
pub open spec fn is_endless(text: Seq<char>) -> bool {
    match parsed_template(text) {
        Some(items) => may_never_end(items),
        None => false,
    }
}

/// A partial that is defined.
#[derive(Debug)]
struct InlinePartial {
    name: Option<String>,
    brings: Vec<Option<String>>,
}

/// The views of names.
spec fn name_views(names: Seq<Option<String>>) -> Seq<Option<Seq<char>>> {
    names.map_values(|name: Option<String>| opt_view(name))
}

/// The view of a partial that is defined.
spec fn inline_view(partial: InlinePartial) -> InlineView {
    InlineView { name: opt_view(partial.name), brings: name_views(partial.brings@) }
}

/// The views of partials that are defined.
spec fn inline_views(partials: Seq<InlinePartial>) -> Seq<InlineView> {
    partials.map_values(|partial: InlinePartial| inline_view(partial))
}

/// Whether marks say of each partial whether it is among some.
spec fn marked(marks: Seq<bool>, among: Set<int>) -> bool {
    forall|k: int| 0 <= k < marks.len() ==> #[trigger] marks[k] == among.contains(k)
}

/// Puts the partials that a template brings in and defines behind others.
fn outline(
    template: Option<Template>,
    brings: &mut Vec<Option<String>>,
    partials: &mut Vec<InlinePartial>,
)
    ensures
        name_views(final(brings)@) == name_views(old(brings)@) + brought_names(
            held_body(template),
        ),
        inline_views(final(partials)@) == inline_views(old(partials)@) + defined_partials(
            held_body(template),
        ),
    decreases held_body(template),
{
    let ghost names = name_views(brings@);
    let ghost views = inline_views(partials@);
    let ghost all = held_body(template);
    assert(names + brought_names(seq![]) =~= names);
    assert(views + defined_partials(seq![]) =~= views);
    let parts = match template {
        Some(template) => parts_of(template),
        None => {
            return ;
        },
    };
    assert(all.take(0) =~= seq![]);
    for part in iter: parts
        invariant
            all == part_items(iter.seq()),
            all == held_body(template),
            name_views(brings@) == names + brought_names(all.take(iter.index())),
            inline_views(partials@) == views + defined_partials(all.take(iter.index())),
    {
        let ghost here = all.take(iter.index() + 1);
        let ghost item = part_item(part);
        let ghost before = name_views(brings@);
        let ghost seen = inline_views(partials@);
        proof {
            assert(here.drop_last() =~= all.take(iter.index()));
            assert(here.last() == item);
            assert(item == all[iter.index()]);
            assert(decreases_to!(all => all[iter.index()]));
        }
        match part {
            Part::Plain => {},
            Part::Block { body, inverse } => {
                assert(decreases_to!(item => item->Block_body));
                assert(decreases_to!(item => item->inverse));
                outline(body, brings, partials);
                outline(inverse, brings, partials);
            },
            Part::Inline { name, body } => {
                assert(decreases_to!(item => item->Inline_body));
                let mut inner: Vec<Option<String>> = Vec::new();
                let mut nested: Vec<InlinePartial> = Vec::new();
                assert(name_views(inner@) =~= seq![]);
                assert(inline_views(nested@) =~= seq![]);
                outline(body, &mut inner, &mut nested);
                assert(seq![] + brought_names(held_body(body)) =~= brought_names(held_body(body)));
                assert(seq![] + defined_partials(held_body(body)) =~= defined_partials(
                    held_body(body),
                ));
                let partial = InlinePartial { name, brings: inner };
                let ghost one = inline_view(partial);
                let ghost more = nested@;
                partials.push(partial);
                assert(inline_views(partials@) =~= seen.push(one));
                let ghost listed = partials@;
                partials.append(&mut nested);
                assert(inline_views(partials@) =~= inline_views(listed) + inline_views(more));
            },
            Part::Partial { name, block } => {
                assert(decreases_to!(item => item->block));
                let ghost one = opt_view(name);
                brings.push(name);
                assert(name_views(brings@) =~= before.push(one));
                outline(block, brings, partials);
            },
        }
        assert(name_views(brings@) =~= before + item_names(item));
        assert(inline_views(partials@) =~= seen + item_partials(item));
        assert(name_views(brings@) =~= names + brought_names(here));
        assert(inline_views(partials@) =~= views + defined_partials(here));
    }
    assert(all.take(all.len() as int) =~= all);
}

fn same_name(a: &Option<String>, b: &Option<String>) -> (same: bool)
    ensures
        same == may_be_same(opt_view(*a), opt_view(*b)),
{
    match (a, b) {
        (Some(a), Some(b)) => *a == *b,
        _ => true,
    }
}

fn brings_name(brings: &Vec<Option<String>>, name: &Option<String>) -> (b: bool)
    ensures
        b == may_bring(name_views(brings@), opt_view(*name)),
{
    let ghost all = name_views(brings@);
    let mut i: usize = 0;
    while i < brings.len()
        invariant
            i <= brings@.len(),
            all == name_views(brings@),
            forall|j: int| 0 <= j < i ==> !may_be_same(#[trigger] all[j], opt_view(*name)),
        decreases brings.len() - i,
    {
        assert(all[i as int] == opt_view(brings@[i as int]));
        if same_name(&brings[i], name) {
            return true;
        }
        i += 1;
    }
    false
}

/// The partials that are brought in by some of them, each marked or not.
fn mark_below(partials: &Vec<InlinePartial>, marks: &Vec<bool>, Ghost(above): Ghost<Set<int>>) -> (
    next: Vec<bool>)
    requires
        marks@.len() == partials@.len(),
        marked(marks@, above),
    ensures
        next@.len() == partials@.len(),
        marked(next@, one_below(above, inline_views(partials@))),
{
    let ghost views = inline_views(partials@);
    let ghost below = one_below(above, views);
    let mut next: Vec<bool> = Vec::new();
    while next.len() < partials.len()
        invariant
            next@.len() <= partials@.len() == marks@.len(),
            views == inline_views(partials@),
            below == one_below(above, views),
            marked(marks@, above),
            marked(next@, below),
        decreases partials.len() - next.len(),
    {
        let k: usize = next.len();
        let mut found = false;
        let mut j: usize = 0;
        while j < partials.len() && !found
            invariant
                j <= partials@.len() == marks@.len(),
                k < partials@.len(),
                views == inline_views(partials@),
                marked(marks@, above),
                found ==> is_below(above, views, k as int),
                !found ==> forall|i: int|
                    0 <= i < j ==> !(#[trigger] above.contains(i) && may_bring(
                        views[i].brings,
                        views[k as int].name,
                    )),
            decreases partials.len() - j,
        {
            assert(views[j as int] == inline_view(partials@[j as int]));
            assert(views[k as int] == inline_view(partials@[k as int]));
            assert(marks@[j as int] == above.contains(j as int));
            if marks[j] && brings_name(&partials[j].brings, &partials[k].name) {
                found = true;
            }
            j += 1;
        }
        assert(found == below.contains(k as int));
        next.push(found);
    }
    next
}

/// Whether a text stands for a template that may bring a partial into itself.
pub fn may_not_end(text: &str) -> (b: bool)
    ensures
        b == is_endless(text@),
{
    let template = compile(text);
    if template.is_none() {
        return false;
    }
    let ghost items = held_body(template);
    let mut names: Vec<Option<String>> = Vec::new();
    let mut partials: Vec<InlinePartial> = Vec::new();
    assert(name_views(names@) =~= seq![]);
    assert(inline_views(partials@) =~= seq![]);
    outline(template, &mut names, &mut partials);
    let ghost brings = brought_names(items);
    let ghost views = defined_partials(items);
    assert(name_views(names@) =~= brings);
    assert(inline_views(partials@) =~= views);
    let mut marks: Vec<bool> = Vec::new();
    while marks.len() < partials.len()
        invariant
            marks@.len() <= partials@.len(),
            brings == name_views(names@),
            views == inline_views(partials@),
            marked(marks@, brought_by(brings, views)),
        decreases partials.len() - marks.len(),
    {
        let k: usize = marks.len();
        assert(views[k as int] == inline_view(partials@[k as int]));
        marks.push(brings_name(&names, &partials[k].name));
    }
    let mut depth: usize = 0;
    while depth < partials.len()
        invariant
            depth <= partials@.len() == marks@.len(),
            views == inline_views(partials@),
            marked(marks@, brought_at(brings, views, depth as nat)),
        decreases partials.len() - depth,
    {
        marks = mark_below(&partials, &marks, Ghost(brought_at(brings, views, depth as nat)));
        depth += 1;
    }
    let ghost deepest = brought_at(brings, views, views.len());
    let mut k: usize = 0;
    while k < marks.len()
        invariant
            k <= marks@.len() == views.len(),
            parsed_template(text@) == Some(items),
            brings == brought_names(items),
            views == defined_partials(items),
            deepest == brought_at(brings, views, views.len()),
            marked(marks@, deepest),
            forall|j: int| 0 <= j < k ==> !(#[trigger] deepest.contains(j)),
        decreases marks.len() - k,
    {
        assert(marks@[k as int] == deepest.contains(k as int));
        if marks[k] {
            return true;
        }
        k += 1;
    }
    proof {
        lemma_brought_are_partials(brings, views, views.len());
    }
    false
}

/// Only what is defined is brought in.
proof fn lemma_brought_are_partials(
    brings: Seq<Option<Seq<char>>>,
    partials: Seq<InlineView>,
    depth: nat,
)
    ensures
        forall|k: int| #[trigger]
            brought_at(brings, partials, depth).contains(k) ==> 0 <= k < partials.len(),
{
}

/// A template that is not held to be endless brings partials into each other at
/// most as deep as it has partials.
pub proof fn law_depth_is_bounded(items: Seq<Item>, depth: nat)
    requires
        !may_never_end(items),
        defined_partials(items).len() <= depth,
    ensures
        brought_at(brought_names(items), defined_partials(items), depth) == Set::<int>::empty(),
    decreases depth,
{
    let brings = brought_names(items);
    let partials = defined_partials(items);
    if partials.len() < depth {
        law_depth_is_bounded(items, (depth - 1) as nat);
    }
    assert(brought_at(brings, partials, depth) =~= Set::<int>::empty());
}

/// A template whose partials bring in only such as are defined before them is not
/// held to be endless.
pub proof fn law_earlier_partials_may_be_brought_in(items: Seq<Item>)
    requires
        forall|j: int, k: int|
            0 <= j < defined_partials(items).len() && 0 <= k < defined_partials(items).len()
                && may_bring(
                (#[trigger] defined_partials(items)[j]).brings,
                (#[trigger] defined_partials(items)[k]).name,
            ) ==> k < j,
    ensures
        !may_never_end(items),
{
    let partials = defined_partials(items);
    lemma_deeper_is_earlier(brought_names(items), partials, partials.len());
}

proof fn lemma_deeper_is_earlier(
    brings: Seq<Option<Seq<char>>>,
    partials: Seq<InlineView>,
    depth: nat,
)
    requires
        forall|j: int, k: int|
            0 <= j < partials.len() && 0 <= k < partials.len() && may_bring(
                (#[trigger] partials[j]).brings,
                (#[trigger] partials[k]).name,
            ) ==> k < j,
    ensures
        forall|k: int| #[trigger]
            brought_at(brings, partials, depth).contains(k) ==> 0 <= k && k + depth
                < partials.len(),
    decreases depth,
{
    if depth > 0 {
        lemma_deeper_is_earlier(brings, partials, (depth - 1) as nat);
        let above = brought_at(brings, partials, (depth - 1) as nat);
        assert forall|k: int| #[trigger]
            brought_at(brings, partials, depth).contains(k) implies 0 <= k && k + depth
            < partials.len() by {
            let j = choose|j: int|
                0 <= j < partials.len() && #[trigger] above.contains(j) && may_bring(
                    partials[j].brings,
                    partials[k].name,
                );
            assert(k < j);
        }
    }
}

/// A template that brings in a partial which brings itself in is held to be
/// endless.
pub proof fn law_partial_in_itself_is_endless(items: Seq<Item>, k: int)
    requires
        0 <= k < defined_partials(items).len(),
        may_bring(brought_names(items), defined_partials(items)[k].name),
        may_bring(defined_partials(items)[k].brings, defined_partials(items)[k].name),
    ensures
        may_never_end(items),
{
    lemma_stays_in_itself(
        brought_names(items),
        defined_partials(items),
        defined_partials(items).len(),
        k,
    );
}

proof fn lemma_stays_in_itself(
    brings: Seq<Option<Seq<char>>>,
    partials: Seq<InlineView>,
    depth: nat,
    k: int,
)
    requires
        0 <= k < partials.len(),
        may_bring(brings, partials[k].name),
        may_bring(partials[k].brings, partials[k].name),
    ensures
        brought_at(brings, partials, depth).contains(k),
    decreases depth,
{
    if depth > 0 {
        lemma_stays_in_itself(brings, partials, (depth - 1) as nat, k);
    }
}

} // verus!
