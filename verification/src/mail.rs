//! The mail: a template filled with the fields of an announcement.
use crate::context::distinct_names;
use crate::context::entries_view;
use crate::context::TemplateContext;
use crate::error::ReleaseError;
use crate::error::ReleaseErrorView;
use crate::text::chars_of;
use crate::text::first_true;
use handlebars::no_escape;
use handlebars::Handlebars;
use std::collections::BTreeMap;
use vstd::prelude::*;

verus! {

/// The template of an announcement where none is given.
pub const DEFAULT_TEMPLATE: &'static str =
    "From: {{emitter}}\nTo: {{recipients}}\nSubject: [{{prefix}}] {{project}} {{version}} is available\nbcc: {{emitter}}\n\nHi!\n\nVersion {{version}} of {{project}} is available in its repository [1].\n\n[1] {{url}}\n\n{{text}}\n\nRegards,\n\n{{signature}}\n";

/// The default template as a sequence of characters.
pub open spec fn default_template() -> Seq<char> {
    DEFAULT_TEMPLATE@
}

/// What a template that includes a partial is refused with.
pub const PARTIAL_MESSAGE: &'static str = "A template must not include a partial";

/// Whether `c` may stand between the opening braces of a tag and the sign
/// that tells what kind of tag it is: white space, a tilde, a hash, or a
/// further brace.
pub open spec fn is_tag_filler(c: char) -> bool {
    c == ' ' || c == '\t' || c == '\n' || c == '\r' || c == '~' || c == '#' || c == '{'
}

/// For each character, whether it is something else than tag filler.
pub open spec fn tag_flags(template: Seq<char>) -> Seq<bool> {
    Seq::new(template.len(), |i: int| !is_tag_filler(template[i]))
}

/// Whether a tag that includes a partial opens at `at`: two opening braces
/// stand there, and the first character behind them that is no tag filler
/// is `>`.
pub open spec fn partial_at(template: Seq<char>, at: int) -> bool {
    &&& 0 <= at
    &&& at + 1 < template.len()
    &&& template[at] == '{'
    &&& template[at + 1] == '{'
    &&& first_true(tag_flags(template), at + 2) < template.len()
    &&& template[first_true(tag_flags(template), at + 2)] == '>'
}

/// Whether the template includes a partial somewhere, be it plainly
/// (`{{> name}}`) or with a block (`{{#> name}}`).
pub open spec fn includes_partial(template: Seq<char>) -> bool {
    exists|at: int| partial_at(template, at)
}

/// Tests whether `c` is tag filler.
fn tag_filler(c: char) -> (b: bool)
    ensures
        b == is_tag_filler(c),
{
    c == ' ' || c == '\t' || c == '\n' || c == '\r' || c == '~' || c == '#' || c == '{'
}

/// Tests whether the template includes a partial.
pub fn has_partial(template: &str) -> (b: bool)
    ensures
        b == includes_partial(template@),
{
    let chars = chars_of(template);
    let n = chars.len();
    let ghost flags = tag_flags(template@);
    let mut i: usize = n;
    let mut here: usize = n;
    let mut next: usize = n;
    while i > 0
        invariant
            i <= n,
            n == chars.len(),
            chars@ == template@,
            flags == tag_flags(template@),
            here == first_true(flags, i as int),
            next == first_true(flags, i + 1),
            forall|at: int| i <= at ==> !partial_at(template@, at),
        decreases i,
    {
        i -= 1;
        let behind = next;
        next = here;
        if !tag_filler(chars[i]) {
            here = i;
        }
        if chars[i] == '{' && i + 1 < n && chars[i + 1] == '{' && behind < n && chars[behind]
            == '>' {
            assert(partial_at(template@, i as int));
            return true;
        }
    }
    false
}

/// Renders `template` with a registry of the `handlebars` crate:
/// `Handlebars::new`, then `register_escape_fn` with `no_escape`,
/// `register_template_string` and `render` on the fields as a map from
/// names to values.
///
/// Trusted: on a template that includes no partial the renderer comes
/// back. Nothing is claimed of what it comes back with: whether the
/// template is taken depends also on limits of the parser that are no part
/// of the template. The error holds the crate's own message. A template
/// that includes a partial is left out: a partial can include itself and
/// keep the renderer from coming back.
#[verifier::external_body]
pub(crate) fn render(template: &str, entries: &Vec<(String, String)>) -> (r: Result<String, String>)
    requires
        !includes_partial(template@),
        distinct_names(entries_view(entries@)),
{
    let mut registry = Handlebars::new();
    registry.register_escape_fn(no_escape);
    registry.register_template_string("t", template).map_err(|e| e.to_string())?;
    let fields: BTreeMap<&str, &str> = entries.iter().map(|e| (e.0.as_str(), e.1.as_str())).collect();
    registry.render("t", &fields).map_err(|e| e.to_string())
}

/// What a rendering attempt means for the mail: its text, or a
/// `TemplateError` with the renderer's message.
pub fn mail_from_render(outcome: Result<String, String>) -> (r: Result<String, ReleaseError>)
    ensures
        match outcome {
            Ok(text) => r matches Ok(s) && s@ == text@,
            Err(message) => r matches Err(e) && e@ == ReleaseErrorView::TemplateError(message@),
        },
{
    match outcome {
        Ok(text) => Ok(text),
        Err(message) => Err(ReleaseError::TemplateError(message)),
    }
}

/// Builds a mail from a template and the fields of an announcement.
pub struct MailBuilder {
    template: Option<String>,
}

impl View for MailBuilder {
    type V = Option<Seq<char>>;

    closed spec fn view(&self) -> Option<Seq<char>> {
        match self.template {
            Some(t) => Some(t@),
            None => None,
        }
    }
}

/// The template that a builder renders: its own, or the default one.
pub open spec fn template_of(builder: Option<Seq<char>>) -> Seq<char> {
    match builder {
        Some(t) => t,
        None => default_template(),
    }
}

impl MailBuilder {
    /// A builder that renders the default template.
    pub fn new() -> (b: MailBuilder)
        ensures
            b@ is None,
    {
        MailBuilder { template: None }
    }

    /// Chooses the template to render.
    pub fn template(&mut self, template: &str) -> (b: &mut MailBuilder)
        ensures
            b@ == Some(template@),
            *final(self) == *final(b),
    {
        self.template = Some(template.to_owned());
        self
    }

    /// The template that `build` renders: the one that was chosen, or the
    /// default one.
    pub fn chosen_template(&self) -> (t: &str)
        ensures
            t@ == template_of(self@),
    {
        match &self.template {
            Some(t) => t.as_str(),
            None => DEFAULT_TEMPLATE,
        }
    }

    /// Renders the mail from the chosen template and the fields `data`:
    /// the renderer replaces every `{{name}}` of the template by the value
    /// of the field `name`, as it stands.
    ///
    /// A template that includes a partial is refused with `TemplateError`
    /// and `PARTIAL_MESSAGE` before anything is rendered. Any other
    /// template is handed to the renderer with the fields, and the result
    /// is the text it made, or a `TemplateError` with its message where it
    /// refused the template or failed to fill it.
    pub fn build(self, data: &TemplateContext) -> (r: Result<String, ReleaseError>)
        ensures
            includes_partial(template_of(self@)) ==> (r matches Err(e) && e@
                == ReleaseErrorView::TemplateError(PARTIAL_MESSAGE@)),
            !includes_partial(template_of(self@)) ==> (r is Ok || (r matches Err(e) && e@
                is TemplateError)),
    {
        let template = self.chosen_template();
        if has_partial(template) {
            Err(ReleaseError::TemplateError(PARTIAL_MESSAGE.to_owned()))
        } else {
            mail_from_render(render(template, data.entries()))
        }
    }
}

} // verus!
