//! The three backend configs rendered from the application state, and where
//! they are written.
pub mod rpxy;
pub mod rpxy_l4;
pub mod stalwart;

use vstd::prelude::*;
use vstd::string::*;

use crate::state::PersistedState;
use crate::text::{owned, push_str};
use crate::toml_doc::rendered_or_empty;

verus! {

/// The files the three backends are started with.
#[derive(Debug, Clone)]
pub struct GeneratedPaths {
    pub rpxy: String,
    pub rpxy_l4: String,
    pub stalwart: String,
}

/// `base` joined with the relative name `name`, as `Path::join` does on
/// Unix: a separator is added unless `base` is empty or already ends in one.
pub open spec fn join_path(base: Seq<char>, name: Seq<char>) -> Seq<char> {
    if base.len() == 0 {
        name
    } else if base.last() == '/' {
        base + name
    } else {
        base + "/"@ + name
    }
}

/// Joins a relative name onto a directory path.
pub fn path_join(base: &str, name: &str) -> (p: String)
    ensures
        p@ == join_path(base@, name@),
{
    let n = base.unicode_len();
    let mut p = owned(base);
    if n > 0 && base.get_char(n - 1) != '/' {
        push_str(&mut p, "/");
    }
    push_str(&mut p, name);
    p
}

/// Everything `write_all` puts on disk: the output directory, the three
/// file paths and the text of each file.
#[derive(Debug, Clone)]
pub struct RenderedConfigs {
    pub out_dir: String,
    pub cert_dir: String,
    pub paths: GeneratedPaths,
    pub rpxy: String,
    pub rpxy_l4: String,
    pub stalwart: String,
}

/// Renders all three backend configs for `<config_dir>/generated/`, with the
/// TLS certificates expected under `<config_dir>/certs`.
pub fn render_all(state: &PersistedState, config_dir: &str) -> (r: RenderedConfigs)
    ensures
        r.out_dir@ == join_path(config_dir@, "generated"@),
        r.cert_dir@ == join_path(config_dir@, "certs"@),
        r.paths.rpxy@ == join_path(r.out_dir@, "rpxy.toml"@),
        r.paths.rpxy_l4@ == join_path(r.out_dir@, "rpxy-l4.toml"@),
        r.paths.stalwart@ == join_path(r.out_dir@, "stalwart.toml"@),
        r.rpxy@ == rendered_or_empty(rpxy::rpxy_doc(*state, r.cert_dir@)),
        r.rpxy_l4@ == rendered_or_empty(rpxy_l4::l4_doc(*state)),
        r.stalwart@ == rendered_or_empty(stalwart::stalwart_doc(*state)),
{
    let out_dir = path_join(config_dir, "generated");
    let cert_dir = path_join(config_dir, "certs");
    let paths = GeneratedPaths {
        rpxy: path_join(out_dir.as_str(), "rpxy.toml"),
        rpxy_l4: path_join(out_dir.as_str(), "rpxy-l4.toml"),
        stalwart: path_join(out_dir.as_str(), "stalwart.toml"),
    };
    let rpxy = rpxy::generate(state, cert_dir.as_str());
    let rpxy_l4 = rpxy_l4::generate(state);
    let stalwart = stalwart::generate(state);
    RenderedConfigs { out_dir, cert_dir, paths, rpxy, rpxy_l4, stalwart }
}

} // verus!
