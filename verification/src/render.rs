use vstd::prelude::*;
use crate::error::CodingGameError;
use crate::generator::{AssetEntry, FileSpec};

verus! {

#[verifier::external_type_specification]
#[verifier::external_body]
pub struct ExTera(tera::Tera);

#[verifier::external_type_specification]
#[verifier::external_body]
pub struct ExContext(tera::Context);

/// The names the templates of an engine are registered under.
pub uninterp spec fn registered_templates(t: tera::Tera) -> Set<Seq<char>>;

/// Relies on tera::Tera::default: a fresh engine holds no templates.
#[verifier::external_body]
fn tera_empty() -> (t: tera::Tera)
    ensures
        registered_templates(t) == Set::<Seq<char>>::empty(),
{
    tera::Tera::default()
}

/// Relies on tera::Tera::add_raw_template: on success the template is
/// registered under the given name; on failure the engine's own error
/// text is carried back.
#[verifier::external_body]
fn tera_add_template(t: &mut tera::Tera, name: &str, body: &str) -> (r: Result<
    (),
    CodingGameError,
>)
    ensures
        r is Ok ==> registered_templates(*final(t)) == registered_templates(*old(t)).insert(
            name@,
        ),
        r is Err ==> r->Err_0 is TeraError,
{
    match t.add_raw_template(name, body) {
        Ok(()) => Ok(()),
        Err(e) => Err(CodingGameError::TeraError(e.to_string())),
    }
}

/// Relies on tera::Tera::render: renders one registered template
/// against the given context; on failure the engine's own error text
/// is carried back.
#[verifier::external_body]
fn tera_render(t: &tera::Tera, name: &str, context: &tera::Context) -> (r: Result<
    String,
    CodingGameError,
>)
    ensures
        r is Err ==> r->Err_0 is TeraError,
{
    match t.render(name, context) {
        Ok(s) => Ok(s),
        Err(e) => Err(CodingGameError::TeraError(e.to_string())),
    }
}

/// Render every asset entry against one shared context: each entry is
/// registered under its relative path as the template name before any
/// rendering, so cross-references among templates stay consistent, and
/// the rendered files come back under the entries' own paths, in the
/// entries' own order.
pub fn render_all(entries: &Vec<AssetEntry>, context: &tera::Context) -> (r: Result<
    Vec<FileSpec>,
    CodingGameError,
>)
    ensures
        r is Ok ==> {
            &&& r->Ok_0@.len() == entries@.len()
            &&& forall|i: int|
                0 <= i < entries@.len() ==> (#[trigger] r->Ok_0@[i]).path
                    == entries@[i].relative_path
        },
        r is Err ==> r->Err_0 is TeraError,
{
    let mut engine = tera_empty();
    let n = entries.len();
    let mut i: usize = 0;
    while i < n
        invariant
            i <= n,
            n == entries@.len(),
        decreases n - i,
    {
        match tera_add_template(
            &mut engine,
            entries[i].relative_path.as_str(),
            entries[i].template_body.as_str(),
        ) {
            Ok(_) => {},
            Err(e) => {
                return Err(e);
            },
        }
        i = i + 1;
    }
    let mut out: Vec<FileSpec> = Vec::new();
    let mut j: usize = 0;
    while j < n
        invariant
            j <= n,
            n == entries@.len(),
            out@.len() == j,
            forall|k: int|
                0 <= k < j ==> (#[trigger] out@[k]).path == entries@[k].relative_path,
        decreases n - j,
    {
        let text = match tera_render(&engine, entries[j].relative_path.as_str(), context) {
            Ok(t) => t,
            Err(e) => {
                return Err(e);
            },
        };
        out.push(FileSpec { path: entries[j].relative_path.clone(), contents: text });
        j = j + 1;
    }
    Ok(out)
}

} // verus!
