//! The element sequence of a parsed template and the collection of its
//! variables.
use handlebars::template::{Parameter, Template, TemplateElement};
use handlebars::{Path as JsonPath, PathSeg};
use vstd::prelude::*;
use vstd::std_specs::iter::IteratorSpec;

verus! {

/// One segment of a path such as `a.b` or `@root.c`.
pub enum Segment {
    /// A plain name.
    Named(String),
    /// A marker such as `@root`, `@` or `..`.
    Marker,
}

/// What a substitution expression names.
pub enum Reference {
    /// A helper invoked with arguments, such as `{{upper name}}`.
    Helper(String),
    /// A path relative to the current context, one item per segment; `{{this}}` has none.
    Relative(Vec<Segment>),
    /// A literal value.
    Literal,
    /// A local variable such as `@index`, a parenthesised subexpression, or
    /// any other form.
    Other,
}

/// One element of a parsed template, in document order.
pub enum Element {
    /// Text copied verbatim.
    Literal(String),
    /// An escaped substitution, `{{ ... }}`.
    Expression(Reference),
    /// A raw substitution, `{{{ ... }}}` or `{{& ... }}`.
    Raw,
    /// Any other construct: blocks, decorators, partials, comments.
    Other,
}

/// The variable that an element makes available for filling in: the name of a
/// `{{name}}` expression whose reference is a relative path of one named segment.
/// Raw substitutions and all other constructs make none.
pub open spec fn variable_of(e: Element) -> Option<Seq<char>> {
    match e {
        Element::Expression(Reference::Relative(segs)) => {
            if segs@.len() == 1 {
                match segs@[0] {
                    Segment::Named(n) => Some(n@),
                    Segment::Marker => None,
                }
            } else {
                None
            }
        },
        _ => None,
    }
}

/// The variables of an element sequence: each name that `variable_of` gives,
/// once, at the place where it first occurs.
pub open spec fn variables_in(els: Seq<Element>) -> Seq<Seq<char>>
    decreases els.len(),
{
    if els.len() == 0 {
        Seq::empty()
    } else {
        let before = variables_in(els.drop_last());
        match variable_of(els.last()) {
            Some(n) => if before.contains(n) {
                before
            } else {
                before.push(n)
            },
            None => before,
        }
    }
}

/// The views of a sequence of strings.
pub open spec fn views(v: Seq<String>) -> Seq<Seq<char>> {
    v.map_values(|s: String| s@)
}

impl Element {
    /// The variable this element makes available, if any.
    pub fn variable(&self) -> (r: Option<&String>)
        ensures
            match r {
                Some(n) => variable_of(*self) == Some(n@),
                None => variable_of(*self) is None,
            },
    {
        match self {
            Element::Expression(Reference::Relative(segs)) => {
                if segs.len() == 1 {
                    match &segs[0] {
                        Segment::Named(n) => Some(n),
                        Segment::Marker => None,
                    }
                } else {
                    None
                }
            },
            _ => None,
        }
    }
}

/// Whether `names` holds a string equal to `name`.
fn holds(names: &Vec<String>, name: &String) -> (r: bool)
    ensures
        r == views(names@).contains(name@),
{
    let mut i: usize = 0;
    while i < names.len()
        invariant
            i <= names.len(),
            forall|j: int| 0 <= j < i ==> names@[j]@ != name@,
        decreases names.len() - i,
    {
        if names[i] == *name {
            assert(views(names@)[i as int] == name@);
            return true;
        }
        i += 1;
    }
    assert forall|j: int| 0 <= j < views(names@).len() implies views(names@)[j] != name@ by {}
    false
}

/// Collects the variables of `elements`: the names of the `{{name}}`
/// expressions, without repetition, in order of first occurrence.
pub fn collect_variables(elements: &Vec<Element>) -> (r: Vec<String>)
    ensures
        views(r@) == variables_in(elements@),
{
    let mut out: Vec<String> = Vec::new();
    let mut i: usize = 0;
    while i < elements.len()
        invariant
            i <= elements.len(),
            views(out@) == variables_in(elements@.take(i as int)),
        decreases elements.len() - i,
    {
        assert(elements@.take(i as int + 1).drop_last() =~= elements@.take(i as int));
        assert(elements@.take(i as int + 1).last() == elements@[i as int]);
        if let Some(name) = elements[i].variable() {
            if !holds(&out, name) {
                out.push(name.clone());
                assert(views(out@) =~= views(out@.drop_last()).push(name@));
            }
        }
        i += 1;
    }
    assert(elements@.take(elements@.len() as int) =~= elements@);
    out
}

/// Elements after which the variables are unchanged, being none of them a
/// `{{name}}` expression, leave the variables of what precedes them as they are.
pub proof fn lemma_variables_ignore(s: Seq<Element>, f: Seq<Element>)
    requires
        forall|i: int| 0 <= i < f.len() ==> (#[trigger] variable_of(f[i])) is None,
    ensures
        variables_in(s + f) == variables_in(s),
    decreases f.len(),
{
    if f.len() == 0 {
        assert(s + f =~= s);
    } else {
        let g = f.drop_last();
        assert((s + f).drop_last() =~= s + g);
        assert((s + f).last() == f[f.len() - 1]);
        assert forall|i: int| 0 <= i < g.len() implies (#[trigger] variable_of(g[i])) is None by {
            assert(g[i] == f[i]);
        }
        lemma_variables_ignore(s, g);
    }
}

/// The variables of a template hold no name twice, and hold exactly the names
/// of its `{{name}}` expressions.
pub proof fn lemma_variables_distinct_and_complete(els: Seq<Element>)
    ensures
        forall|i: int, j: int|
            0 <= i < j < variables_in(els).len() ==> variables_in(els)[i] != variables_in(els)[j],
        forall|n: Seq<char>|
            variables_in(els).contains(n) <==> exists|k: int|
                0 <= k < els.len() && #[trigger] variable_of(els[k]) == Some(n),
    decreases els.len(),
{
    if els.len() > 0 {
        let g = els.drop_last();
        lemma_variables_distinct_and_complete(g);
        assert forall|n: Seq<char>|
            variables_in(els).contains(n) <==> exists|k: int|
                0 <= k < els.len() && #[trigger] variable_of(els[k]) == Some(n) by {
            if variables_in(els).contains(n) {
                if variables_in(g).contains(n) {
                    let k = choose|k: int| 0 <= k < g.len() && #[trigger] variable_of(g[k]) == Some(n);
                    assert(els[k] == g[k]);
                } else {
                    let last = variables_in(els).len() - 1;
                    assert(variables_in(els)[last] == n);
                    assert(variable_of(els[els.len() - 1]) == Some(n));
                }
            }
            if exists|k: int| 0 <= k < els.len() && #[trigger] variable_of(els[k]) == Some(n) {
                let k = choose|k: int| 0 <= k < els.len() && #[trigger] variable_of(els[k]) == Some(n);
                if k < els.len() - 1 {
                    assert(g[k] == els[k]);
                    assert(variables_in(g).contains(n));
                    let m = choose|m: int| 0 <= m < variables_in(g).len() && variables_in(g)[m] == n;
                    assert(variables_in(els)[m] == n);
                } else {
                    let last = variables_in(els).len() - 1;
                    if !variables_in(g).contains(n) {
                        assert(variables_in(els)[last] == n);
                    }
                }
            }
        }
    }
}

/// A template of literal text alone has no variables.
pub proof fn lemma_literal_text_has_no_variables(els: Seq<Element>)
    requires
        forall|i: int| 0 <= i < els.len() ==> (#[trigger] els[i]) is Literal,
    ensures
        variables_in(els) == Seq::<Seq<char>>::empty(),
{
    assert forall|i: int| 0 <= i < els.len() implies (#[trigger] variable_of(els[i])) is None by {
        assert(els[i] is Literal);
    }
    lemma_variables_ignore(Seq::empty(), els);
    assert(Seq::<Element>::empty() + els =~= els);
}

/// A template whose expressions are all other than a bare `{{name}}` (helper
/// calls, `{{this}}`, paths of several segments, local or literal references)
/// has no variables.
pub proof fn lemma_complex_expressions_have_no_variables(els: Seq<Element>)
    requires
        forall|i: int|
            0 <= i < els.len() ==> match #[trigger] els[i] {
                Element::Expression(Reference::Relative(segs)) => segs@.len() != 1 || segs@[0] is Marker,
                _ => true,
            },
    ensures
        variables_in(els) == Seq::<Seq<char>>::empty(),
{
    assert forall|i: int| 0 <= i < els.len() implies (#[trigger] variable_of(els[i])) is None by {}
    lemma_variables_ignore(Seq::empty(), els);
    assert(Seq::<Element>::empty() + els =~= els);
}

/// In a template `{{a}} ... {{a}} ... {{b}}` where the text between the
/// expressions holds no variable, the variables are `a` then `b`: each once,
/// in order of first occurrence.
pub proof fn lemma_first_occurrence_order(
    x: Element,
    f1: Seq<Element>,
    y: Element,
    f2: Seq<Element>,
    z: Element,
    a: Seq<char>,
    b: Seq<char>,
)
    requires
        variable_of(x) == Some(a),
        variable_of(y) == Some(a),
        variable_of(z) == Some(b),
        a != b,
        forall|i: int| 0 <= i < f1.len() ==> (#[trigger] variable_of(f1[i])) is None,
        forall|i: int| 0 <= i < f2.len() ==> (#[trigger] variable_of(f2[i])) is None,
    ensures
        variables_in(seq![x] + f1 + seq![y] + f2 + seq![z]) == seq![a, b],
{
    let s0 = seq![x];
    assert(s0.drop_last() =~= Seq::<Element>::empty());
    assert(s0.last() == x);
    assert(variables_in(Seq::<Element>::empty()) == Seq::<Seq<char>>::empty());
    assert(Seq::<Seq<char>>::empty().push(a) =~= seq![a]);
    assert(variables_in(s0) =~= seq![a]);
    lemma_variables_ignore(s0, f1);
    let s1 = (s0 + f1).push(y);
    assert(s1.drop_last() =~= s0 + f1);
    assert(s1.last() == y);
    assert(seq![a].contains(a)) by {
        assert(seq![a][0] == a);
    }
    assert(variables_in(s1) =~= seq![a]);
    lemma_variables_ignore(s1, f2);
    let s2 = (s1 + f2).push(z);
    assert(s2.drop_last() =~= s1 + f2);
    assert(s2.last() == z);
    assert(!seq![a].contains(b)) by {
        assert(seq![a][0] != b);
    }
    assert(variables_in(s2) =~= seq![a, b]);
    assert(s0 + f1 + seq![y] + f2 + seq![z] =~= s2);
}

/// A character that the grammar lets stand between `{{` and the `*` that opens
/// a decorator: whitespace, the `~` that trims it, and the `#` of a block.
pub open spec fn is_gap(c: char) -> bool {
    c == ' ' || c == '\t' || c == '\n' || c == '\r' || c == '~' || c == '#'
}

/// Position `i` of `t` follows a `{{` with only gap characters in between.
pub open spec fn opens_at(t: Seq<char>, i: int) -> bool
    decreases i,
{
    if i < 2 || i > t.len() {
        false
    } else {
        (t[i - 1] == '{' && t[i - 2] == '{') || (is_gap(t[i - 1]) && opens_at(t, i - 1))
    }
}

/// The text may hold a decorator, such as an inline partial definition
/// `{{#*inline "p"}}`: a `*` that follows `{{` with only gap characters in
/// between.
pub open spec fn has_decorator(t: Seq<char>) -> bool {
    exists|j: int| 0 <= j < t.len() && t[j] == '*' && #[trigger] opens_at(t, j)
}

/// Whether `text` may hold a decorator (see `has_decorator`).
pub fn defines_decorator(text: &str) -> (r: bool)
    ensures
        r == has_decorator(text@),
{
    let ghost t = text@;
    let mut chars = text.chars();
    let ghost mut i: int = 0;
    let mut brace = false;
    let mut open = false;
    proof {
        broadcast use vstd::string::axiom_spec_iter;
    }
    loop
        invariant
            t == text@,
            0 <= i <= t.len(),
            chars.remaining() == t.subrange(i, t.len() as int),
            brace == (i > 0 && t[i - 1] == '{'),
            open == opens_at(t, i),
            forall|j: int| 0 <= j < i && t[j] == '*' ==> !opens_at(t, j),
        decreases t.len() - i,
    {
        proof {
            broadcast use vstd::string::next_postcondition;
        }
        match chars.next() {
            None => {
                assert(t.subrange(i, t.len() as int).len() == 0);
                assert forall|j: int| 0 <= j < t.len() && t[j] == '*' implies !#[trigger] opens_at(t, j) by {}
                return false;
            },
            Some(c) => {
                assert(c == t[i]);
                if c == '*' && open {
                    assert(t[i] == '*' && opens_at(t, i));
                    assert(has_decorator(t));
                    return true;
                }
                let next_open = (c == '{' && brace) || ((c == ' ' || c == '\t' || c == '\n' || c == '\r'
                    || c == '~' || c == '#') && open);
                proof {
                    assert(opens_at(t, i + 1) == next_open);
                    i = i + 1;
                }
                open = next_open;
                brace = c == '{';
            },
        }
    }
}

/// The error that handlebars reports on a template that does not parse.
#[verifier::external_type_specification]
#[verifier::external_body]
pub struct ExTemplateError(handlebars::TemplateError);

/// The elements that the handlebars grammar gives a template text, or `None`
/// where the text does not parse.
pub uninterp spec fn parsed(text: Seq<char>) -> Option<Seq<Element>>;

/// Relies on handlebars' `Template::compile_with_name`: it parses `text`, the
/// name only labels errors; each element and reference is turned into the
/// library's own form, variant for variant.
#[verifier::external_body]
pub(crate) fn compile(text: &str, name: String) -> (r: Result<Vec<Element>, handlebars::TemplateError>)
    ensures
        match r {
            Ok(els) => parsed(text@) == Some(els@),
            Err(_) => parsed(text@) is None,
        },
{
    Template::compile_with_name(text, name).map(|t| t.elements.into_iter().map(|e| match e {
        TemplateElement::RawString(s) => Element::Literal(s),
        TemplateElement::HtmlExpression(_) => Element::Raw,
        TemplateElement::Expression(h) => Element::Expression(match h.name {
            Parameter::Name(n) => Reference::Helper(n),
            Parameter::Path(JsonPath::Relative((segs, _))) => Reference::Relative(segs.into_iter()
                .map(|g| if let PathSeg::Named(n) = g { Segment::Named(n) } else { Segment::Marker })
                .collect()),
            Parameter::Literal(_) => Reference::Literal,
            _ => Reference::Other,
        }),
        _ => Element::Other,
    }).collect())
}

} // verus!
