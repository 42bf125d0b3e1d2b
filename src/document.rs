//! A template file's path and text, with the variables found in it.
use crate::template::{
    collect_variables, compile, defines_decorator, has_decorator, parsed, variables_in, views,
};
use handlebars::{Handlebars, RenderError};
use std::collections::HashMap;
use vstd::prelude::*;

verus! {

/// Errors reported when handling a document.
#[derive(Debug)]
pub enum Error {
    /// The path has no file name to key the template by.
    InvalidTemplate(String),
    /// The template parsed, but rendering it failed.
    Render(RenderError),
    /// The template text does not parse.
    Template(handlebars::TemplateError),
    /// The template may define decorators or inline partials, which are not
    /// rendered: an inline partial that includes itself would never return.
    Decorator,
}

/// The error that handlebars reports when rendering fails.
#[verifier::external_type_specification]
#[verifier::external_body]
pub struct ExRenderError(RenderError);

/// The last component of a path, where there is one (none for `/`, for an
/// empty path, or for one that ends in `..`).
pub uninterp spec fn file_name_of(path: Seq<char>) -> Option<Seq<char>>;

/// What handlebars renders from a template text with the given name-to-value
/// data, or `None` where rendering fails.
pub uninterp spec fn rendered(text: Seq<char>, data: Map<Seq<char>, Seq<char>>) -> Option<Seq<char>>;

/// Relies on `std::path::Path::file_name` (a path given as `&str` always has a
/// UTF-8 file name): the final component of the path, `None` for the root path.
#[verifier::external_body]
fn file_name(path: &str) -> (r: Option<String>)
    ensures
        match r {
            Some(n) => file_name_of(path@) == Some(n@),
            None => file_name_of(path@) is None,
        },
        path@ == "/"@ ==> r is None,
{
    std::path::Path::new(path).file_name().and_then(|f| f.to_str()).map(|f| f.to_string())
}

/// Relies on handlebars' `Registry::render_template` on a new registry, with
/// its default escaping and lookup: the output depends on the text and the
/// data alone. The registry holds no partials, so without decorators (no
/// inline partial) a partial can only render its own block, and rendering
/// returns.
#[verifier::external_body]
fn render_template(text: &str, data: &HashMap<String, String>) -> (r: Result<String, RenderError>)
    requires
        !has_decorator(text@),
    ensures
        match r {
            Ok(s) => rendered(text@, data.deep_view()) == Some(s@),
            Err(_) => rendered(text@, data.deep_view()) is None,
        },
{
    Handlebars::new().render_template(text, data)
}

/// The name that keys the template at `path`: the path's file name.
pub fn template_name(path: &str) -> (r: Result<String, Error>)
    ensures
        match file_name_of(path@) {
            Some(n) => r matches Ok(s) && s@ == n,
            None => r matches Err(Error::InvalidTemplate(p)) && p@ == path@,
        },
        path@ == "/"@ ==> (r matches Err(Error::InvalidTemplate(p)) && p@ == path@),
{
    match file_name(path) {
        Some(n) => Ok(n),
        None => Err(Error::InvalidTemplate(path.to_string())),
    }
}

/// The abstract content of a document.
pub struct DocumentView {
    pub path: Seq<char>,
    pub text: Seq<char>,
    pub variables: Seq<Seq<char>>,
}

/// A Handlebars template: its path, its text and the variables found in it.
pub struct Document {
    path: String,
    text: String,
    variables: Vec<String>,
}

impl View for Document {
    type V = DocumentView;

    closed spec fn view(&self) -> DocumentView {
        DocumentView { path: self.path@, text: self.text@, variables: views(self.variables@) }
    }
}

/// A document as `Document::open` makes one: its path has a file name, its
/// text parses, and its variables are those of the parsed elements.
pub open spec fn well_formed(d: DocumentView) -> bool {
    &&& file_name_of(d.path) is Some
    &&& parsed(d.text) matches Some(els)
    &&& d.variables == variables_in(els)
}

/// Variables depend on the template text alone: two documents opened on the
/// same text list the same variables in the same order.
pub proof fn lemma_variables_determined(d1: DocumentView, d2: DocumentView)
    requires
        well_formed(d1),
        well_formed(d2),
        d1.text == d2.text,
    ensures
        d1.variables == d2.variables,
{
}

impl Document {
    /// Creates the document for the Handlebars template at `path` whose text is
    /// `text`, and collects its variables.
    pub fn open(path: &str, text: &str) -> (r: Result<Document, Error>)
        ensures
            match file_name_of(path@) {
                None => r matches Err(Error::InvalidTemplate(p)) && p@ == path@,
                Some(_) => match parsed(text@) {
                    None => r matches Err(Error::Template(_)),
                    Some(els) => r matches Ok(d) && d@ == (DocumentView {
                        path: path@,
                        text: text@,
                        variables: variables_in(els),
                    }),
                },
            },
            r matches Ok(d) ==> well_formed(d@),
            path@ == "/"@ ==> (r matches Err(Error::InvalidTemplate(p)) && p@ == path@),
    {
        let name = match template_name(path) {
            Ok(n) => n,
            Err(e) => return Err(e),
        };
        match compile(text, name) {
            Ok(elements) => {
                let variables = collect_variables(&elements);
                Ok(Document { path: path.to_string(), text: text.to_string(), variables })
            },
            Err(e) => Err(Error::Template(e)),
        }
    }

    /// Returns the path of the document.
    pub fn path(&self) -> (r: &str)
        ensures
            r@ == self@.path,
    {
        self.path.as_str()
    }

    /// Returns the variables of the template, in order of first occurrence.
    pub fn variables(&self) -> (r: Vec<&str>)
        ensures
            r@.map_values(|s: &str| s@) == self@.variables,
    {
        let mut out: Vec<&str> = Vec::new();
        let mut i: usize = 0;
        while i < self.variables.len()
            invariant
                i <= self.variables.len(),
                out@.map_values(|s: &str| s@) == views(self.variables@).take(i as int),
            decreases self.variables.len() - i,
        {
            out.push(self.variables[i].as_str());
            assert(views(self.variables@).take(i as int + 1) =~= views(self.variables@).take(
                i as int,
            ).push(self.variables@[i as int]@));
            assert(out@.map_values(|s: &str| s@) =~= out@.drop_last().map_values(|s: &str| s@).push(
                self.variables@[i as int]@,
            ));
            i += 1;
        }
        assert(views(self.variables@).take(self.variables.len() as int) =~= views(
            self.variables@,
        ));
        out
    }

    /// Renders the template with `data`, which maps variable names to values.
    /// A template that may hold decorators is refused.
    pub fn render(&self, data: &HashMap<String, String>) -> (r: Result<String, Error>)
        ensures
            has_decorator(self@.text) ==> r matches Err(Error::Decorator),
            !has_decorator(self@.text) ==> match rendered(self@.text, data.deep_view()) {
                Some(s) => r matches Ok(o) && o@ == s,
                None => r matches Err(Error::Render(_)),
            },
    {
        if defines_decorator(self.text.as_str()) {
            return Err(Error::Decorator);
        }
        match render_template(self.text.as_str(), data) {
            Ok(s) => Ok(s),
            Err(e) => Err(Error::Render(e)),
        }
    }
}

} // verus!
