use crate::config::{classify, lines_view, text_lines, ConfigManager};
use crate::paths::{join_path, spec_join};
use vstd::prelude::*;

verus! {

pub open spec fn spec_wine_config_path(wine_tkg_path: Seq<char>) -> Seq<char> {
    spec_join(spec_join(wine_tkg_path, "wine-tkg-git"@), "customization.cfg"@)
}

/// The path of wine-tkg's customization file: it lives in the inner
/// `wine-tkg-git` directory of the checkout.
pub fn wine_config_path(wine_tkg_path: &str) -> (r: String)
    ensures
        r@ == spec_wine_config_path(wine_tkg_path@),
{
    let a = join_path(wine_tkg_path, "wine-tkg-git");
    join_path(a.as_str(), "customization.cfg")
}

/// Reads wine-tkg's customization file from its text, `content`, as read
/// from `wine_config_path(wine_tkg_path)`. A read error is passed on.
pub fn load(wine_tkg_path: &str, content: Result<String, String>) -> (r: Result<ConfigManager, String>)
    ensures
        content is Err ==> r is Err && r->Err_0 == content->Err_0,
        content is Ok ==> r is Ok && r->Ok_0.path@ == spec_wine_config_path(wine_tkg_path@)
            && lines_view(r->Ok_0.lines@) == text_lines(content->Ok_0@).map_values(
            |l: Seq<char>| classify(l),
        ),
{
    let path = wine_config_path(wine_tkg_path);
    ConfigManager::load(path.as_str(), content)
}

} // verus!
