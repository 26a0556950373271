use vstd::prelude::*;
use crate::dom::{
    attr, descendants, elements_within, get_attribute, str_eq, text_of, texts_of, texts_view,
    Element, HtmlNode,
};

verus! {

/// A form field as it would be submitted: its name and its value.
pub type FieldView = (Seq<char>, Seq<char>);

/// The view of a field set held in a `Vec`.
pub open spec fn fields_view(v: Seq<(String, String)>) -> Seq<FieldView> {
    v.map_values(|p: (String, String)| (p.0@, p.1@))
}

/// Whether `e` carries attribute `key`, whatever its value.
pub open spec fn has_attr(e: Element, key: Seq<char>) -> bool {
    attr(e, key) is Some
}

/// The pair an `input` element contributes to the form state, if any.
pub open spec fn input_field(e: Element) -> Option<FieldView> {
    let t = attr(e, "type"@);
    if e.name@ != "input"@ {
        None
    } else if t == Some("submit"@) || t == Some("reset"@) || t == Some("image"@) {
        None
    } else if (t == Some("radio"@) || t == Some("checkbox"@)) && !has_attr(e, "checked"@) {
        None
    } else if has_attr(e, "disabled"@) {
        None
    } else {
        match (attr(e, "name"@), attr(e, "value"@)) {
            (Some(n), Some(v)) => Some((n, v)),
            _ => None,
        }
    }
}

/// The value of the first `option` child among `ns` that has a value, counting
/// only options flagged selected when `only_selected` holds.
pub open spec fn first_option_value(ns: Seq<HtmlNode>, only_selected: bool) -> Option<Seq<char>>
    decreases ns.len(),
{
    if ns.len() == 0 {
        None
    } else {
        match ns[0] {
            HtmlNode::Element(o) => if o.name@ == "option"@ && (!only_selected || has_attr(
                o,
                "selected"@,
            )) && has_attr(o, "value"@) {
                attr(o, "value"@)
            } else {
                first_option_value(ns.drop_first(), only_selected)
            },
            _ => first_option_value(ns.drop_first(), only_selected),
        }
    }
}

/// The value a `select` element submits: its first selected option's value,
/// else its first option's value.
pub open spec fn select_value(e: Element) -> Option<Seq<char>> {
    match first_option_value(e.children@, true) {
        Some(v) => Some(v),
        None => first_option_value(e.children@, false),
    }
}

/// The pair a `select` element contributes to the form state, if any.
pub open spec fn select_field(e: Element) -> Option<FieldView> {
    if e.name@ != "select"@ {
        None
    } else {
        match (attr(e, "name"@), select_value(e)) {
            (Some(n), Some(v)) => Some((n, v)),
            _ => None,
        }
    }
}

/// The pair a `textarea` element contributes to the form state, if any.
pub open spec fn textarea_field(e: Element) -> Option<FieldView> {
    if e.name@ != "textarea"@ {
        None
    } else {
        match attr(e, "name"@) {
            Some(n) => Some((n, texts_of(e.children@))),
            None => None,
        }
    }
}

/// The pairs that `f` gives for the elements `es`, in order.
pub open spec fn collect_fields(es: Seq<Element>, f: spec_fn(Element) -> Option<FieldView>) -> Seq<
    FieldView,
>
    decreases es.len(),
{
    if es.len() == 0 {
        Seq::empty()
    } else {
        let rest = collect_fields(es.drop_first(), f);
        match f(es[0]) {
            Some(p) => seq![p] + rest,
            None => rest,
        }
    }
}

/// A named `select` element without any usable option: it is skipped, with a
/// warning that names it; the pair holds that name and an empty value.
pub open spec fn skipped_select(e: Element) -> Option<FieldView> {
    if e.name@ == "select"@ && attr(e, "name"@) is Some && select_value(e) is None {
        Some((attr(e, "name"@)->0, Seq::empty()))
    } else {
        None
    }
}

/// The rule that picks the skipped `select` elements.
pub open spec fn skipped_rule() -> spec_fn(Element) -> Option<FieldView> {
    |e: Element| skipped_select(e)
}

/// The names of the `select` elements of `form` skipped for want of an option,
/// in document order.
pub open spec fn skipped_selects(form: Element) -> Seq<Seq<char>> {
    collect_fields(descendants(form), skipped_rule()).map_values(|p: FieldView| p.0)
}

/// The rule that picks the pair of an `input` element.
pub open spec fn input_rule() -> spec_fn(Element) -> Option<FieldView> {
    |e: Element| input_field(e)
}

/// The rule that picks the pair of a `select` element.
pub open spec fn select_rule() -> spec_fn(Element) -> Option<FieldView> {
    |e: Element| select_field(e)
}

/// The rule that picks the pair of a `textarea` element.
pub open spec fn textarea_rule() -> spec_fn(Element) -> Option<FieldView> {
    |e: Element| textarea_field(e)
}

/// The current state of a form: the pairs of its inputs, then of its selects,
/// then of its textareas, each group in document order.
pub open spec fn form_state(form: Element) -> Seq<FieldView> {
    let d = descendants(form);
    collect_fields(d, input_rule()) + collect_fields(d, select_rule()) + collect_fields(
        d,
        textarea_rule(),
    )
}

proof fn lemma_collect_append(a: Seq<Element>, b: Seq<Element>, f: spec_fn(Element) -> Option<FieldView>)
    ensures
        collect_fields(a + b, f) == collect_fields(a, f) + collect_fields(b, f),
    decreases a.len(),
{
    if a.len() == 0 {
        assert(a + b =~= b);
    } else {
        assert((a + b).drop_first() =~= a.drop_first() + b);
        lemma_collect_append(a.drop_first(), b, f);
    }
}

proof fn lemma_elements_append(a: Seq<HtmlNode>, b: Seq<HtmlNode>)
    ensures
        elements_within(a + b) == elements_within(a) + elements_within(b),
    decreases a.len(),
{
    if a.len() == 0 {
        assert(a + b =~= b);
    } else {
        assert((a + b).drop_first() =~= a.drop_first() + b);
        lemma_elements_append(a.drop_first(), b);
    }
}

proof fn lemma_texts_append(a: Seq<HtmlNode>, b: Seq<HtmlNode>)
    ensures
        texts_of(a + b) == texts_of(a) + texts_of(b),
    decreases a.len(),
{
    if a.len() == 0 {
        assert(a + b =~= b);
    } else {
        assert((a + b).drop_first() =~= a.drop_first() + b);
        lemma_texts_append(a.drop_first(), b);
    }
}

proof fn lemma_texts_single(n: HtmlNode)
    ensures
        texts_of(seq![n]) == text_of(n),
{
    let s = seq![n];
    assert(s.drop_first() =~= Seq::<HtmlNode>::empty());
    assert(texts_of(s.drop_first()) == Seq::<char>::empty());
    assert(text_of(n) + Seq::<char>::empty() =~= text_of(n));
}

proof fn lemma_take_next<T>(s: Seq<T>, i: int)
    requires
        0 <= i < s.len(),
    ensures
        s.take(i + 1) == s.take(i) + seq![s[i]],
{
    assert(s.take(i + 1) =~= s.take(i) + seq![s[i]]);
}

/// The text content of the nodes `ns`.
pub fn text_content(ns: &Vec<HtmlNode>) -> (r: String)
    ensures
        r@ == texts_of(ns@),
    decreases ns@,
{
    let mut out = String::new();
    let mut i: usize = 0;
    while i < ns.len()
        invariant
            i <= ns@.len(),
            out@ == texts_of(ns@.take(i as int)),
        decreases ns@.len() - i,
    {
        proof {
            lemma_take_next(ns@, i as int);
            lemma_texts_append(ns@.take(i as int), seq![ns@[i as int]]);
            lemma_texts_single(ns@[i as int]);
        }
        match &ns[i] {
            HtmlNode::Element(e) => {
                assert(decreases_to!(ns@ => ns@[i as int]));
                let t = text_content(&e.children);
                out.append(t.as_str());
            },
            HtmlNode::Text(t) => {
                out.append(t.as_str());
            },
            HtmlNode::Other => {},
        }
        i = i + 1;
    }
    assert(ns@.take(ns@.len() as int) =~= ns@);
    out
}

/// The view of an optional field.
pub open spec fn opt_field_view(r: Option<(String, String)>) -> Option<FieldView> {
    match r {
        Some(p) => Some((p.0@, p.1@)),
        None => None,
    }
}

proof fn lemma_elements_single(n: HtmlNode)
    ensures
        elements_within(seq![n]) == match n {
            HtmlNode::Element(e) => seq![e] + elements_within(e.children@),
            _ => Seq::<Element>::empty(),
        },
{
    let s = seq![n];
    assert(s.drop_first() =~= Seq::<HtmlNode>::empty());
    assert(elements_within(s.drop_first()) == Seq::<Element>::empty());
    match n {
        HtmlNode::Element(e) => {
            assert(seq![e] + elements_within(e.children@) + Seq::<Element>::empty() =~= seq![e]
                + elements_within(e.children@));
        },
        _ => {
            assert(Seq::<Element>::empty() + Seq::<Element>::empty() =~= Seq::<Element>::empty());
        },
    }
}

proof fn lemma_collect_single(e: Element, f: spec_fn(Element) -> Option<FieldView>)
    ensures
        collect_fields(seq![e], f) == match f(e) {
            Some(p) => seq![p],
            None => Seq::<FieldView>::empty(),
        },
{
    let s = seq![e];
    assert(s.drop_first() =~= Seq::<Element>::empty());
    assert(collect_fields(s.drop_first(), f) == Seq::<FieldView>::empty());
    match f(e) {
        Some(p) => {
            assert(seq![p] + Seq::<FieldView>::empty() =~= seq![p]);
        },
        None => {},
    }
}

/// Whether an optional attribute value is exactly `lit`.
fn value_is(v: Option<&String>, lit: &str) -> (r: bool)
    ensures
        r == match v {
            Some(s) => s@ == lit@,
            None => false,
        },
{
    match v {
        Some(s) => str_eq(s.as_str(), lit),
        None => false,
    }
}

/// The pair that the `input` element `e` contributes to the form state.
pub fn input_pair(e: &Element) -> (r: Option<(String, String)>)
    ensures
        opt_field_view(r) == input_field(*e),
{
    if !str_eq(e.name.as_str(), "input") {
        return None;
    }
    let t = get_attribute(e, "type");
    if value_is(t, "submit") || value_is(t, "reset") || value_is(t, "image") {
        return None;
    }
    if (value_is(t, "radio") || value_is(t, "checkbox")) && get_attribute(e, "checked").is_none() {
        return None;
    }
    if get_attribute(e, "disabled").is_some() {
        return None;
    }
    match (get_attribute(e, "name"), get_attribute(e, "value")) {
        (Some(n), Some(v)) => Some((n.clone(), v.clone())),
        _ => None,
    }
}

/// The value of the first `option` among `ns` that has one, counting only
/// options flagged selected when `only_selected` holds.
pub fn first_option<'a>(ns: &'a Vec<HtmlNode>, only_selected: bool) -> (r: Option<&'a String>)
    ensures
        match r {
            Some(v) => first_option_value(ns@, only_selected) == Some(v@),
            None => first_option_value(ns@, only_selected) is None,
        },
{
    let mut i: usize = 0;
    assert(ns@.skip(0) =~= ns@);
    while i < ns.len()
        invariant
            i <= ns@.len(),
            first_option_value(ns@, only_selected) == first_option_value(
                ns@.skip(i as int),
                only_selected,
            ),
        decreases ns@.len() - i,
    {
        assert(ns@.skip(i as int).drop_first() =~= ns@.skip(i + 1));
        if let HtmlNode::Element(o) = &ns[i] {
            if str_eq(o.name.as_str(), "option") && (!only_selected || get_attribute(
                o,
                "selected",
            ).is_some()) {
                let v = get_attribute(o, "value");
                if v.is_some() {
                    return v;
                }
            }
        }
        i = i + 1;
    }
    None
}

/// The pair that the `select` element `e` contributes to the form state.
pub fn select_pair(e: &Element) -> (r: Option<(String, String)>)
    ensures
        opt_field_view(r) == select_field(*e),
{
    if !str_eq(e.name.as_str(), "select") {
        return None;
    }
    let name = get_attribute(e, "name");
    let value = match first_option(&e.children, true) {
        Some(v) => Some(v),
        None => first_option(&e.children, false),
    };
    match (name, value) {
        (Some(n), Some(v)) => Some((n.clone(), v.clone())),
        _ => None,
    }
}

/// The warning pair of a `select` element that has to be skipped.
pub fn skipped_pair(e: &Element) -> (r: Option<(String, String)>)
    ensures
        opt_field_view(r) == skipped_select(*e),
{
    if !str_eq(e.name.as_str(), "select") {
        return None;
    }
    let name = get_attribute(e, "name");
    let value = match first_option(&e.children, true) {
        Some(v) => Some(v),
        None => first_option(&e.children, false),
    };
    match (name, value) {
        (Some(n), None) => Some((n.clone(), String::new())),
        _ => None,
    }
}

/// The pair that the `textarea` element `e` contributes to the form state.
pub fn textarea_pair(e: &Element) -> (r: Option<(String, String)>)
    ensures
        opt_field_view(r) == textarea_field(*e),
{
    if !str_eq(e.name.as_str(), "textarea") {
        return None;
    }
    match get_attribute(e, "name") {
        Some(n) => Some((n.clone(), text_content(&e.children))),
        None => None,
    }
}

fn push_field(out: &mut Vec<(String, String)>, p: Option<(String, String)>)
    ensures
        fields_view(final(out)@) == fields_view(old(out)@) + match opt_field_view(p) {
            Some(q) => seq![q],
            None => Seq::<FieldView>::empty(),
        },
{
    match p {
        Some(q) => {
            out.push(q);
            assert(fields_view(out@) =~= fields_view(old(out)@) + seq![(q.0@, q.1@)]);
        },
        None => {
            assert(fields_view(out@) =~= fields_view(old(out)@) + Seq::<FieldView>::empty());
        },
    }
}

/// Appends to the three groups the pairs of every element within `ns`, in document order.
fn collect_within(
    ns: &Vec<HtmlNode>,
    inputs: &mut Vec<(String, String)>,
    selects: &mut Vec<(String, String)>,
    areas: &mut Vec<(String, String)>,
    skipped: &mut Vec<(String, String)>,
)
    ensures
        fields_view(final(inputs)@) == fields_view(old(inputs)@) + collect_fields(
            elements_within(ns@),
            input_rule(),
        ),
        fields_view(final(selects)@) == fields_view(old(selects)@) + collect_fields(
            elements_within(ns@),
            select_rule(),
        ),
        fields_view(final(areas)@) == fields_view(old(areas)@) + collect_fields(
            elements_within(ns@),
            textarea_rule(),
        ),
        fields_view(final(skipped)@) == fields_view(old(skipped)@) + collect_fields(
            elements_within(ns@),
            skipped_rule(),
        ),
    decreases ns@,
{
    let ghost in0 = fields_view(inputs@);
    let ghost se0 = fields_view(selects@);
    let ghost ar0 = fields_view(areas@);
    let ghost sk0 = fields_view(skipped@);
    let mut i: usize = 0;
    assert(ns@.take(0) =~= Seq::<HtmlNode>::empty());
    assert(in0 + Seq::<FieldView>::empty() =~= in0);
    assert(se0 + Seq::<FieldView>::empty() =~= se0);
    assert(ar0 + Seq::<FieldView>::empty() =~= ar0);
    assert(sk0 + Seq::<FieldView>::empty() =~= sk0);
    while i < ns.len()
        invariant
            i <= ns@.len(),
            in0 == fields_view(old(inputs)@),
            se0 == fields_view(old(selects)@),
            ar0 == fields_view(old(areas)@),
            sk0 == fields_view(old(skipped)@),
            fields_view(inputs@) == in0 + collect_fields(
                elements_within(ns@.take(i as int)),
                input_rule(),
            ),
            fields_view(selects@) == se0 + collect_fields(
                elements_within(ns@.take(i as int)),
                select_rule(),
            ),
            fields_view(areas@) == ar0 + collect_fields(
                elements_within(ns@.take(i as int)),
                textarea_rule(),
            ),
            fields_view(skipped@) == sk0 + collect_fields(
                elements_within(ns@.take(i as int)),
                skipped_rule(),
            ),
        decreases ns@.len() - i,
    {
        let ghost pre = elements_within(ns@.take(i as int));
        let ghost here = elements_within(seq![ns@[i as int]]);
        proof {
            lemma_take_next(ns@, i as int);
            lemma_elements_append(ns@.take(i as int), seq![ns@[i as int]]);
            lemma_elements_single(ns@[i as int]);
            lemma_collect_append(pre, here, input_rule());
            lemma_collect_append(pre, here, select_rule());
            lemma_collect_append(pre, here, textarea_rule());
            lemma_collect_append(pre, here, skipped_rule());
        }
        match &ns[i] {
            HtmlNode::Element(e) => {
                let ghost kids = elements_within(e.children@);
                proof {
                    lemma_collect_append(seq![*e], kids, input_rule());
                    lemma_collect_append(seq![*e], kids, select_rule());
                    lemma_collect_append(seq![*e], kids, textarea_rule());
                    lemma_collect_single(*e, input_rule());
                    lemma_collect_single(*e, select_rule());
                    lemma_collect_single(*e, textarea_rule());
                    lemma_collect_append(seq![*e], kids, skipped_rule());
                    lemma_collect_single(*e, skipped_rule());
                }
                push_field(inputs, input_pair(e));
                push_field(selects, select_pair(e));
                push_field(areas, textarea_pair(e));
                push_field(skipped, skipped_pair(e));
                assert(decreases_to!(ns@ => ns@[i as int]));
                collect_within(&e.children, inputs, selects, areas, skipped);
                assert(fields_view(inputs@) =~= in0 + collect_fields(
                    elements_within(ns@.take(i + 1)),
                    input_rule(),
                ));
                assert(fields_view(selects@) =~= se0 + collect_fields(
                    elements_within(ns@.take(i + 1)),
                    select_rule(),
                ));
                assert(fields_view(areas@) =~= ar0 + collect_fields(
                    elements_within(ns@.take(i + 1)),
                    textarea_rule(),
                ));
                assert(fields_view(skipped@) =~= sk0 + collect_fields(
                    elements_within(ns@.take(i + 1)),
                    skipped_rule(),
                ));
            },
            _ => {
                assert(pre + here =~= pre);
            },
        }
        i = i + 1;
    }
    assert(ns@.take(ns@.len() as int) =~= ns@);
}

/// The current state of the form `form` (the name/value pairs a browser would
/// submit for it, inputs first, then selects, then textareas), together with
/// the names of the selects skipped for want of an option.
pub fn extract_form_state_reporting(form: &Element) -> (r: (Vec<(String, String)>, Vec<String>))
    ensures
        fields_view(r.0@) == form_state(*form),
        texts_view(r.1@) == skipped_selects(*form),
{
    let mut inputs: Vec<(String, String)> = Vec::new();
    let mut selects: Vec<(String, String)> = Vec::new();
    let mut areas: Vec<(String, String)> = Vec::new();
    let mut skipped: Vec<(String, String)> = Vec::new();
    proof {
        assert(fields_view(inputs@) =~= Seq::<FieldView>::empty());
        assert(fields_view(selects@) =~= Seq::<FieldView>::empty());
        assert(fields_view(areas@) =~= Seq::<FieldView>::empty());
        assert(fields_view(skipped@) =~= Seq::<FieldView>::empty());
    }
    collect_within(&form.children, &mut inputs, &mut selects, &mut areas, &mut skipped);
    let ghost a = fields_view(inputs@);
    let ghost b = fields_view(selects@);
    inputs.append(&mut selects);
    assert(fields_view(inputs@) =~= a + b);
    let ghost ab = fields_view(inputs@);
    let ghost c = fields_view(areas@);
    inputs.append(&mut areas);
    assert(fields_view(inputs@) =~= ab + c);
    let ghost d = descendants(*form);
    assert(Seq::<FieldView>::empty() + collect_fields(d, input_rule()) =~= collect_fields(d, input_rule()));
    assert(Seq::<FieldView>::empty() + collect_fields(d, select_rule()) =~= collect_fields(d, select_rule()));
    assert(Seq::<FieldView>::empty() + collect_fields(d, textarea_rule()) =~= collect_fields(d, textarea_rule()));
    assert(Seq::<FieldView>::empty() + collect_fields(d, skipped_rule()) =~= collect_fields(d, skipped_rule()));
    let mut names: Vec<String> = Vec::new();
    let mut i: usize = 0;
    while i < skipped.len()
        invariant
            i <= skipped@.len(),
            texts_view(names@) =~= fields_view(skipped@).take(i as int).map_values(|p: FieldView| p.0),
        decreases skipped@.len() - i,
    {
        let ghost before = names@;
        let nm = skipped[i].0.clone();
        assert(nm@ == fields_view(skipped@)[i as int].0);
        names.push(nm);
        assert(texts_view(names@) =~= texts_view(before).push(nm@));
        assert(fields_view(skipped@).take(i + 1) =~= fields_view(skipped@).take(i as int).push(
            fields_view(skipped@)[i as int],
        ));
        i = i + 1;
    }
    assert(fields_view(skipped@).take(i as int) =~= fields_view(skipped@));
    (inputs, names)
}

/// The current state of the form `form`: the name/value pairs a browser would
/// submit for it, inputs first, then selects, then textareas.
pub fn extract_form_state(form: &Element) -> (r: Vec<(String, String)>)
    ensures
        fields_view(r@) == form_state(*form),
{
    extract_form_state_reporting(form).0
}

} // verus!
