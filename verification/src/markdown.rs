//! The two stages of a render call: markdown to raw HTML, raw HTML to clean HTML.

use ammonia::Builder;
use ammonia::UrlRelative::{Custom, Deny};
use std::borrow::Cow;
use vstd::prelude::*;
use crate::classes::filter_attribute;
use crate::policy::{documentation_policy, AllowlistPolicy, PolicyView, RuleView, TagRule, UrlPolicy};
use crate::trust::optional_text;

verus! {

/// The HTML that the markdown converter writes for `text` under the given
/// switches.
pub uninterp spec fn converted_html(
    text: Seq<char>,
    autolink: bool,
    strikethrough: bool,
    table: bool,
    tagfilter: bool,
    tasklist: bool,
    raw_html: bool,
) -> Seq<char>;

/// The HTML that the cleaner writes for `html` under the given tables, forced
/// link relation and anchor for relative URLs.
pub uninterp spec fn cleaned_html(
    tags: Seq<Seq<char>>,
    attributes: Seq<RuleView>,
    classes: Seq<RuleView>,
    link_rel: Seq<char>,
    anchor: Option<Seq<char>>,
    html: Seq<char>,
) -> Seq<char>;

/// The switches of the markdown converter that a render call sets.
pub struct ConverterOptions {
    /// Bare URLs become links.
    pub autolink: bool,
    /// Text between tildes is struck through.
    pub strikethrough: bool,
    /// Tables are recognised.
    pub table: bool,
    /// Known dangerous raw tags are written as escaped text.
    pub tagfilter: bool,
    /// List items may carry a checkbox.
    pub tasklist: bool,
    /// Raw HTML in the text is written through, for the cleaner to judge.
    pub raw_html: bool,
}

impl ConverterOptions {
    /// The switches for documentation pages: every one of them is on.
    pub fn documentation() -> (options: ConverterOptions)
        ensures
            options.autolink,
            options.strikethrough,
            options.table,
            options.tagfilter,
            options.tasklist,
            options.raw_html,
    {
        ConverterOptions {
            autolink: true,
            strikethrough: true,
            table: true,
            tagfilter: true,
            tasklist: true,
            raw_html: true,
        }
    }
}

/// The raw HTML of `text` under `options`.
pub open spec fn converted(options: ConverterOptions, text: Seq<char>) -> Seq<char> {
    converted_html(
        text,
        options.autolink,
        options.strikethrough,
        options.table,
        options.tagfilter,
        options.tasklist,
        options.raw_html,
    )
}

/// The clean HTML of `html` under `policy`.
pub open spec fn sanitized(policy: PolicyView, html: Seq<char>) -> Seq<char> {
    cleaned_html(
        policy.tags,
        policy.attributes,
        policy.classes,
        policy.link_rel,
        policy.anchor,
        html,
    )
}

/// What a render call returns for `text` and the base location `base`.
pub open spec fn rendered(base: Option<Seq<char>>, text: Seq<char>) -> Seq<char> {
    sanitized(
        documentation_policy(base),
        converted_html(text, true, true, true, true, true, true),
    )
}

/// Calls `comrak::markdown_to_html` with comrak's default options but for the
/// six switches, which are set as `options` has them. The contract only gives
/// the converter's output its name.
#[verifier::external_body]
fn convert(text: &str, options: &ConverterOptions) -> (html: String)
    ensures
        html@ == converted_html(
            text@,
            options.autolink,
            options.strikethrough,
            options.table,
            options.tagfilter,
            options.tasklist,
            options.raw_html,
        ),
{
    let mut settings = comrak::Options::default();
    settings.extension.autolink = options.autolink;
    settings.extension.strikethrough = options.strikethrough;
    settings.extension.table = options.table;
    settings.extension.tagfilter = options.tagfilter;
    settings.extension.tasklist = options.tasklist;
    settings.render.unsafe_ = options.raw_html;
    comrak::markdown_to_html(text, &settings)
}

/// What the cleaner calls for each relative URL: `None` removes the attribute
/// that holds it, another URL replaces it.
type Rewriter<'a> = Box<dyn Fn(&str) -> Option<Cow<'_, str>> + Send + Sync + 'a>;

/// Calls `ammonia::Builder::clean` on a builder made by `Builder::new` and set
/// up from `policy` (`link_rel`, `tags`, `tag_attributes`, `allowed_classes`,
/// `attribute_filter`, `url_relative`), and writes the document out as a
/// string. The cleaner asks `filter_attribute` about each attribute that its
/// tables let through, and `UrlPolicy::rewrite` about each relative URL. The
/// contract only gives the cleaner's output its name; the `requires` keeps
/// away the tables on which the cleaner panics.
#[verifier::external_body]
fn clean(html: &str, policy: &AllowlistPolicy) -> (cleaned: String)
    requires
        policy@.wf(),
    ensures
        cleaned@ == cleaned_html(
            policy@.tags,
            policy@.attributes,
            policy@.classes,
            policy@.link_rel,
            policy@.anchor,
            html@,
        ),
{
    let classes = policy.allowed_classes.clone();
    let rewrite: Rewriter = Box::new(|url| policy.url_relative.rewrite(url));
    let entry = |rule: &TagRule| (rule.tag, rule.names.iter().copied().collect());
    Builder::new()
        .link_rel(Some(policy.link_rel))
        .tags(policy.tags.iter().copied().collect())
        .tag_attributes(policy.tag_attributes.iter().map(entry).collect())
        .allowed_classes(policy.allowed_classes.iter().map(entry).collect())
        .attribute_filter(move |tag, name, value| filter_attribute(&classes, tag, name, value))
        .url_relative(match policy.url_relative {
            UrlPolicy::Deny => Deny,
            _ => Custom(Box::new(rewrite)),
        })
        .clean(html)
        .to_string()
}

/// Cleans raw HTML under `policy`.
pub fn sanitize(raw_html: &str, policy: &AllowlistPolicy) -> (html: String)
    ensures
        html@ == sanitized(policy@, raw_html@),
{
    proof {
        use_type_invariant(policy);
    }
    clean(raw_html, policy)
}

/// The error of a render call. No text and no base location gives one: what
/// cannot be classified is stripped or denied.
#[derive(Debug)]
pub struct RenderError {}

/// Context for markdown to HTML rendering.
pub struct MarkdownRenderer {
    policy: AllowlistPolicy,
}

impl View for MarkdownRenderer {
    type V = PolicyView;

    closed spec fn view(&self) -> PolicyView {
        self.policy@
    }
}

impl MarkdownRenderer {
    /// Creates a renderer. `base_url` is the location below which relative
    /// links in a document are anchored, where its host is trusted.
    pub fn new(base_url: Option<&str>) -> (renderer: MarkdownRenderer)
        ensures
            renderer@ == documentation_policy(optional_text(base_url)),
    {
        MarkdownRenderer { policy: AllowlistPolicy::new(base_url) }
    }

    /// The policy that this renderer cleans with.
    pub fn policy(&self) -> (policy: &AllowlistPolicy)
        ensures
            policy@ == self@,
    {
        &self.policy
    }

    /// Renders the given markdown to HTML.
    pub fn to_html(&self, text: &str) -> (result: Result<String, RenderError>)
        ensures
            match result {
                Ok(html) => html@ == sanitized(
                    self@,
                    converted_html(text@, true, true, true, true, true, true),
                ),
                Err(_) => false,
            },
    {
        let options = ConverterOptions::documentation();
        let raw = convert(text, &options);
        Ok(sanitize(raw.as_str(), &self.policy))
    }
}

/// Renders a markdown text to sanitized HTML.
///
/// `base_url` is used as the base for relative links found in the text, as
/// long as its host is one of the trusted hosts; it serves as a directory
/// whether or not the link begins with a separator. Without a base that can
/// be trusted, relative links are removed.
pub fn markdown_to_html(text: &str, base_url: Option<&str>) -> (result: Result<
    String,
    RenderError,
>)
    ensures
        match result {
            Ok(html) => html@ == rendered(optional_text(base_url), text@),
            Err(_) => false,
        },
{
    let renderer = MarkdownRenderer::new(base_url);
    renderer.to_html(text)
}

} // verus!
