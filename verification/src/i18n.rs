//! Translated messages: a Fluent bundle per language, looked up by key.

use vstd::prelude::*;
use fluent::bundle::FluentBundle;
use fluent::{FluentArgs, FluentError, FluentMessage, FluentResource};
use fluent_syntax::ast::Pattern;
use intl_memoizer::concurrent::IntlLangMemoizer;
use unic_langid::LanguageIdentifier;

verus! {

/// Fluent's message bundle, held opaque.
#[verifier::external_type_specification]
#[verifier::external_body]
#[verifier::reject_recursive_types(R)]
#[verifier::reject_recursive_types(M)]
pub struct ExFluentBundle<R, M>(FluentBundle<R, M>);

/// A parsed FTL resource, held opaque.
#[verifier::external_type_specification]
#[verifier::external_body]
pub struct ExFluentResource(FluentResource);

/// The thread-safe formatter cache of a bundle, held opaque.
#[verifier::external_type_specification]
#[verifier::external_body]
pub struct ExIntlLangMemoizer(IntlLangMemoizer);

/// A message found in a bundle, held opaque.
#[verifier::external_type_specification]
#[verifier::external_body]
pub struct ExFluentMessage<'m>(FluentMessage<'m>);

/// The value pattern of a message, held opaque.
#[verifier::external_type_specification]
#[verifier::external_body]
#[verifier::reject_recursive_types(S)]
pub struct ExPattern<S>(Pattern<S>);

/// An error reported while formatting, held opaque.
#[verifier::external_type_specification]
#[verifier::external_body]
pub struct ExFluentError(FluentError);

/// The arguments of a message, held opaque.
#[verifier::external_type_specification]
#[verifier::external_body]
pub struct ExFluentArgs<'a>(FluentArgs<'a>);

/// A parsed language tag, held opaque.
#[verifier::external_type_specification]
#[verifier::external_body]
pub struct ExLanguageIdentifier(LanguageIdentifier);

/// What `FluentBundle::get_message` finds in a bundle under an id.
pub uninterp spec fn message_lookup(
    bundle: FluentBundle<FluentResource, IntlLangMemoizer>,
    id: Seq<char>,
) -> Option<FluentMessage<'static>>;

/// What `FluentMessage::value` gives: the message's value pattern, if it has one.
pub uninterp spec fn message_pattern(message: FluentMessage<'_>) -> Option<&Pattern<&str>>;

/// What `FluentBundle::format_pattern` gives for a pattern and its arguments,
/// if any: the text, and how many errors it reported.
pub uninterp spec fn formatted_pattern(
    bundle: FluentBundle<FluentResource, IntlLangMemoizer>,
    pattern: Pattern<&str>,
    args: Option<&FluentArgs<'_>>,
) -> (Seq<char>, nat);

/// `FluentBundle::get_message`: the message stored under `id`, if any.
#[verifier::external_body]
fn find_message<'b>(bundle: &'b FluentBundle<FluentResource, IntlLangMemoizer>, id: &str) -> (r:
    Option<FluentMessage<'b>>)
    ensures
        r == message_lookup(*bundle, id@),
{
    bundle.get_message(id)
}

/// `FluentMessage::value`: the message's value pattern, if it has one.
#[verifier::external_body]
fn message_value<'m>(message: &FluentMessage<'m>) -> (r: Option<&'m Pattern<&'m str>>)
    ensures
        r == message_pattern(*message),
{
    message.value()
}

/// `FluentBundle::format_pattern`: the formatted text and the errors that
/// formatting reported.
#[verifier::external_body]
fn format_value<'b>(
    bundle: &'b FluentBundle<FluentResource, IntlLangMemoizer>,
    pattern: &'b Pattern<&'b str>,
    args: Option<&FluentArgs>,
) -> (r: (String, Vec<FluentError>))
    ensures
        (r.0@, r.1@.len()) == formatted_pattern(*bundle, *pattern, args),
{
    let mut errors = Vec::new();
    let text = bundle.format_pattern(pattern, args, &mut errors).into_owned();
    (text, errors)
}

/// What `t` (no `args`) and `t_with_args` give for `key` from `bundle`: the
/// key itself when the bundle has no message under it, the message has no
/// value, or formatting it reported errors; the formatted value otherwise.
pub open spec fn translation(
    bundle: FluentBundle<FluentResource, IntlLangMemoizer>,
    key: Seq<char>,
    args: Option<&FluentArgs<'_>>,
) -> Seq<char> {
    match message_lookup(bundle, key) {
        Some(message) => match message_pattern(message) {
            Some(pattern) => settle_spec(key, Some(formatted_pattern(bundle, *pattern, args))),
            None => key,
        },
        None => key,
    }
}

/// The text shown for `key` once its value was formatted (or not found):
/// the formatted text when formatting reported no error, the key otherwise.
pub open spec fn settle_spec(key: Seq<char>, formatted: Option<(Seq<char>, nat)>) -> Seq<char> {
    match formatted {
        Some((text, errors)) => if errors == 0 { text } else { key },
        None => key,
    }
}

/// Decides `settle_spec` from a formatted value and its error count.
pub fn translation_or_key(key: &str, formatted: Option<(String, usize)>) -> (r: String)
    ensures
        r@ == settle_spec(key@, match formatted {
            Some((text, errors)) => Some((text@, errors as nat)),
            None => None,
        }),
{
    match formatted {
        Some((text, errors)) => if errors == 0 { text } else { key.to_string() },
        None => key.to_string(),
    }
}

/// The translated messages of one language.
pub struct Catalog {
    pub bundle: FluentBundle<FluentResource, IntlLangMemoizer>,
}

/// The translation of `key` in `catalog`, or `key` itself when there is none.
pub fn t(catalog: &Catalog, key: &str) -> (r: String)
    ensures
        r@ == translation(catalog.bundle, key@, None),
{
    let formatted = match find_message(&catalog.bundle, key) {
        Some(message) => match message_value(&message) {
            Some(pattern) => {
                let (text, errors) = format_value(&catalog.bundle, pattern, None);
                Some((text, errors.len()))
            },
            None => None,
        },
        None => None,
    };
    translation_or_key(key, formatted)
}

/// What `str::parse::<LanguageIdentifier>` gives for a language tag.
pub uninterp spec fn language_id(tag: Seq<char>) -> Option<LanguageIdentifier>;

/// What `FluentResource::try_new` gives for FTL source: the resource when
/// the source parsed without error.
pub uninterp spec fn parsed_resource(source: Seq<char>) -> Option<FluentResource>;

/// What `FluentBundle::new_concurrent` gives for a single locale.
pub uninterp spec fn fresh_bundle(locale: LanguageIdentifier) -> FluentBundle<
    FluentResource,
    IntlLangMemoizer,
>;

/// What `FluentBundle::add_resource` makes of a bundle and a resource: the
/// bundle afterwards, and whether every message of the resource was added
/// (none of its ids was already taken).
pub uninterp spec fn bundle_with_resource(
    bundle: FluentBundle<FluentResource, IntlLangMemoizer>,
    resource: FluentResource,
) -> (FluentBundle<FluentResource, IntlLangMemoizer>, bool);

pub open spec fn is_ascii_alpha(c: char) -> bool {
    ('a' <= c && c <= 'z') || ('A' <= c && c <= 'Z')
}

/// `str::parse::<LanguageIdentifier>`; a two-letter alphabetic tag (a bare
/// language subtag) always parses.
#[verifier::external_body]
fn parse_language(tag: &str) -> (r: Option<LanguageIdentifier>)
    ensures
        r == language_id(tag@),
        tag@.len() == 2 && is_ascii_alpha(tag@[0]) && is_ascii_alpha(tag@[1]) ==> r is Some,
{
    tag.parse::<LanguageIdentifier>().ok()
}

/// `FluentResource::try_new`: the parsed resource, or `None` when the parser
/// reported errors.
#[verifier::external_body]
fn parse_resource(source: String) -> (r: Option<FluentResource>)
    ensures
        r == parsed_resource(source@),
{
    FluentResource::try_new(source).ok()
}

/// `FluentBundle::new_concurrent` with one locale: a bundle without messages.
#[verifier::external_body]
fn new_bundle(locale: LanguageIdentifier) -> (r: FluentBundle<FluentResource, IntlLangMemoizer>)
    ensures
        r == fresh_bundle(locale),
        forall|id: Seq<char>| #[trigger] message_lookup(r, id) is None,
{
    FluentBundle::new_concurrent(vec![locale])
}

/// `FluentBundle::add_resource`: whether it reported no error.
#[verifier::external_body]
fn add_resource(
    bundle: &mut FluentBundle<FluentResource, IntlLangMemoizer>,
    resource: FluentResource,
) -> (r: bool)
    ensures
        (*final(bundle), r) == bundle_with_resource(*old(bundle), resource),
{
    bundle.add_resource(resource).is_ok()
}

/// Why a language could not be loaded; the catalog in use is kept.
#[derive(Debug, Clone, Copy, PartialEq, Eq)]
pub enum LoadError {
    /// The FTL source has syntax errors.
    Parse,
    /// The FTL source defines a message id twice.
    Resource,
    /// The language tag is not a valid language identifier.
    InvalidLanguage,
}

/// The translation of `key` in `catalog` with `args` filled in, or `key`
/// itself when there is none.
pub fn t_with_args(catalog: &Catalog, key: &str, args: &FluentArgs) -> (r: String)
    ensures
        r@ == translation(catalog.bundle, key@, Some(args)),
{
    let formatted = match find_message(&catalog.bundle, key) {
        Some(message) => match message_value(&message) {
            Some(pattern) => {
                let (text, errors) = format_value(&catalog.bundle, pattern, Some(args));
                Some((text, errors.len()))
            },
            None => None,
        },
        None => None,
    };
    translation_or_key(key, formatted)
}

/// The bundle that loading `source` for `locale` builds, and whether it was
/// built without error.
pub open spec fn loaded_bundle(locale: LanguageIdentifier, resource: FluentResource) -> (
    FluentBundle<FluentResource, IntlLangMemoizer>,
    bool,
) {
    bundle_with_resource(fresh_bundle(locale), resource)
}

impl Catalog {
    /// The catalog before any language is loaded: English, without messages,
    /// so every key translates to itself.
    pub fn new() -> (r: Catalog)
        ensures
            language_id("en"@) is Some,
            r.bundle == fresh_bundle(language_id("en"@)->0),
            forall|id: Seq<char>| #[trigger] message_lookup(r.bundle, id) is None,
    {
        proof {
            reveal_strlit("en");
        }
        let locale = parse_language("en").unwrap();
        Catalog { bundle: new_bundle(locale) }
    }
}

/// What loading the FTL `source` for the language `lang` makes of the bundle
/// in use, and what it reports: the source is parsed first, then the
/// language tag, then the messages are added to a fresh bundle for that
/// language, which replaces the one in use only when all of it succeeded.
pub open spec fn load_spec(
    bundle: FluentBundle<FluentResource, IntlLangMemoizer>,
    lang: Seq<char>,
    source: Seq<char>,
) -> (FluentBundle<FluentResource, IntlLangMemoizer>, Result<(), LoadError>) {
    match parsed_resource(source) {
        None => (bundle, Err(LoadError::Parse)),
        Some(resource) => match language_id(lang) {
            None => (bundle, Err(LoadError::InvalidLanguage)),
            Some(locale) => {
                let built = loaded_bundle(locale, resource);
                if built.1 {
                    (built.0, Ok(()))
                } else {
                    (bundle, Err(LoadError::Resource))
                }
            },
        },
    }
}

/// Switches `catalog` to the language `lang`, whose FTL source is `source`.
/// On any error the catalog in use is kept.
pub fn load_language(catalog: &mut Catalog, lang: &str, source: String) -> (r: Result<(), LoadError>)
    requires
        language_id(lang@) is Some,
    ensures
        (final(catalog).bundle, r) == load_spec(old(catalog).bundle, lang@, source@),
{
    let resource = match parse_resource(source) {
        Some(res) => res,
        None => return Err(LoadError::Parse),
    };
    let locale = parse_language(lang).unwrap();
    let mut bundle = new_bundle(locale);
    if add_resource(&mut bundle, resource) {
        catalog.bundle = bundle;
        Ok(())
    } else {
        Err(LoadError::Resource)
    }
}

/// `load_language` for any tag: an invalid language tag is reported as
/// `InvalidLanguage` (after a source that does not parse, which is reported
/// first), and the catalog in use is kept.
pub fn try_load_language(catalog: &mut Catalog, lang: &str, source: String) -> (r: Result<
    (),
    LoadError,
>)
    ensures
        (final(catalog).bundle, r) == load_spec(old(catalog).bundle, lang@, source@),
{
    match parse_language(lang) {
        Some(_) => load_language(catalog, lang, source),
        None => match parse_resource(source) {
            Some(_) => Err(LoadError::InvalidLanguage),
            None => Err(LoadError::Parse),
        },
    }
}

/// Before any language is loaded, every key translates to itself.
pub proof fn law_default_catalog_echoes_keys(
    catalog: Catalog,
    key: Seq<char>,
    args: Option<&FluentArgs<'_>>,
)
    requires
        forall|id: Seq<char>| #[trigger] message_lookup(catalog.bundle, id) is None,
    ensures
        translation(catalog.bundle, key, args) == key,
{
}

/// A failed load leaves every translation as it was.
pub proof fn law_failed_load_keeps_translations(
    bundle: FluentBundle<FluentResource, IntlLangMemoizer>,
    lang: Seq<char>,
    source: Seq<char>,
    key: Seq<char>,
    args: Option<&FluentArgs<'_>>,
)
    requires
        load_spec(bundle, lang, source).1 is Err,
    ensures
        translation(load_spec(bundle, lang, source).0, key, args) == translation(bundle, key, args),
{
}

} // verus!
