//! The rendering context that a template engine is handed.

use vstd::prelude::*;

verus! {

/// `tera::Context`, known by what stands under each of its keys.
#[verifier::external_type_specification]
#[verifier::external_body]
pub struct ExTeraContext(tera::Context);

/// What stands under a key of a rendering context: a text, or any other value
/// as the JSON text of it.
pub enum ContextValue {
    Text(Seq<char>),
    Json(Seq<char>),
}

/// What stands under each key of a rendering context.
pub uninterp spec fn context_entries(context: tera::Context) -> Map<Seq<char>, ContextValue>;

/// What a `toml::Value` holds, as `tera::Context::insert` takes it in: the
/// text of a value that is a text, else the JSON that the value is turned
/// into.
pub uninterp spec fn value_entry(value: toml::Value) -> ContextValue;

/// `tera::Context::new`: a context without keys.
#[verifier::external_body]
pub(crate) fn new_context() -> (fresh: tera::Context)
    ensures
        (context_entries(fresh) == Map::<Seq<char>, ContextValue>::empty()),
{
    tera::Context::new()
}

/// `tera::Context::insert` of a text: the key then holds that text, in place
/// of what it held before.
#[verifier::external_body]
pub(crate) fn insert_text(context: &mut tera::Context, key: &str, value: &str)
    ensures
        context_entries(*final(context)) == context_entries(*old(context)).insert(
            key@,
            ContextValue::Text(value@),
        ),
{
    context.insert(key, value);
}

/// `tera::Context::insert` of structured data: the key then holds what the
/// data is turned into, in place of what it held before.
#[verifier::external_body]
pub(crate) fn insert_data(context: &mut tera::Context, key: &str, value: &toml::Value)
    ensures
        context_entries(*final(context)) == context_entries(*old(context)).insert(
            key@,
            value_entry(*value),
        ),
{
    context.insert(key, value);
}

} // verus!
