//! Base template data: the hashed asset paths (stylesheet and script) that
//! every rendered page links, resolved once at startup from the static
//! asset cache and shared for the process lifetime.

use vstd::prelude::*;

verus! {

/// One built static asset: its logical name and the content-hashed path it
/// is served under.
pub struct StaticAsset {
    pub name: String,
    pub path: String,
}

/// Some asset carries this name.
pub open spec fn has_asset(assets: Seq<StaticAsset>, name: Seq<char>) -> bool {
    exists|i: int| 0 <= i < assets.len() && assets[i].name@ == name
}

/// The asset carrying this name; meaningful when names are unique.
pub open spec fn spec_get_asset(assets: Seq<StaticAsset>, name: Seq<char>) -> Option<StaticAsset> {
    if has_asset(assets, name) {
        Some(assets[choose|i: int| 0 <= i < assets.len() && assets[i].name@ == name])
    } else {
        None
    }
}

/// Under unique names, any matching index determines the lookup result.
pub proof fn lemma_get_asset_at(assets: Seq<StaticAsset>, name: Seq<char>, i: int)
    requires
        forall|a: int, b: int| 0 <= a < b < assets.len() ==> assets[a].name@ != assets[b].name@,
        0 <= i < assets.len(),
        assets[i].name@ == name,
    ensures
        spec_get_asset(assets, name) == Some(assets[i]),
{
    assert(has_asset(assets, name));
    let k = choose|k: int| 0 <= k < assets.len() && assets[k].name@ == name;
    if k < i {
        assert(assets[k].name@ != assets[i].name@);
    } else if i < k {
        assert(assets[i].name@ != assets[k].name@);
    }
}

/// The cache of built static assets, loaded once at startup.
pub struct AssetCache {
    pub assets: Vec<StaticAsset>,
}

impl AssetCache {
    /// The cache's invariant: asset names are unique keys.
    pub open spec fn wf(&self) -> bool {
        forall|a: int, b: int|
            0 <= a < b < self.assets@.len() ==> self.assets@[a].name@ != self.assets@[b].name@
    }

    /// An empty cache.
    pub fn new() -> (r: AssetCache)
        ensures
            r.assets@ == Seq::<StaticAsset>::empty(),
            r.wf(),
    {
        AssetCache { assets: Vec::new() }
    }

    /// Registers an asset. Succeeds exactly when the name is not taken; on
    /// failure the cache is unchanged.
    pub fn add(&mut self, name: String, path: String) -> (r: bool)
        requires
            old(self).wf(),
        ensures
            final(self).wf(),
            r == !has_asset(old(self).assets@, name@),
            r ==> final(self).assets@ == old(self).assets@.push(StaticAsset { name, path }),
            !r ==> final(self).assets@ == old(self).assets@,
    {
        if self.get(&name).is_some() {
            false
        } else {
            let ghost prev = self.assets@;
            self.assets.push(StaticAsset { name, path });
            proof {
                assert forall|a: int, b: int|
                    0 <= a < b < self.assets@.len() implies self.assets@[a].name@
                    != self.assets@[b].name@ by {
                    if b < prev.len() {
                        assert(prev[a].name@ != prev[b].name@);
                    } else {
                        assert(self.assets@[a] == prev[a]);
                    }
                }
            }
            true
        }
    }

    /// Looks an asset up by name.
    pub fn get(&self, name: &String) -> (r: Option<StaticAsset>)
        requires
            self.wf(),
        ensures
            r == spec_get_asset(self.assets@, name@),
    {
        let n = self.assets.len();
        let mut i: usize = 0;
        while i < n
            invariant
                n == self.assets@.len(),
                i <= n,
                self.wf(),
                forall|j: int| 0 <= j < i ==> (#[trigger] self.assets@[j]).name@ != name@,
            decreases n - i,
        {
            if self.assets[i].name == *name {
                let a = StaticAsset {
                    name: self.assets[i].name.clone(),
                    path: self.assets[i].path.clone(),
                };
                proof {
                    lemma_get_asset_at(self.assets@, name@, i as int);
                }
                return Some(a);
            }
            i += 1;
        }
        assert(!has_asset(self.assets@, name@));
        None
    }
}

/// The asset paths a page's base template links: one stylesheet, one
/// script.
pub struct BaseTemplateData {
    pub styles: String,
    pub scripts: String,
}

impl BaseTemplateData {
    /// Resolves the named stylesheet and script to their hashed paths.
    /// Both names must be present in the cache; startup fails before any
    /// page is served otherwise.
    pub fn new(assets: &AssetCache, css: &String, js: &String) -> (r: BaseTemplateData)
        requires
            assets.wf(),
            has_asset(assets.assets@, css@),
            has_asset(assets.assets@, js@),
        ensures
            r.styles == spec_get_asset(assets.assets@, css@)->Some_0.path,
            r.scripts == spec_get_asset(assets.assets@, js@)->Some_0.path,
    {
        let styles = match assets.get(css) {
            Some(a) => a.path,
            None => {
                proof {
                    assert(false);
                }
                String::new()
            },
        };
        let scripts = match assets.get(js) {
            Some(a) => a.path,
            None => {
                proof {
                    assert(false);
                }
                String::new()
            },
        };
        BaseTemplateData { styles, scripts }
    }

    /// Resolves the template data once and hands out a reference that
    /// lives for the process lifetime, for the long-lived rendering state.
    pub fn load_static(assets: &AssetCache, css: &String, js: &String) -> (r:
        &'static BaseTemplateData)
        requires
            assets.wf(),
            has_asset(assets.assets@, css@),
            has_asset(assets.assets@, js@),
        ensures
            r.styles == spec_get_asset(assets.assets@, css@)->Some_0.path,
            r.scripts == spec_get_asset(assets.assets@, js@)->Some_0.path,
    {
        let data = BaseTemplateData::new(assets, css, js);
        leak_static(data)
    }
}

/// Relies on `Box::leak`: the boxed value is never dropped, and the
/// returned reference to it lives for the rest of the process.
#[verifier::external_body]
fn leak_static(data: BaseTemplateData) -> (r: &'static BaseTemplateData)
    ensures
        *r == data,
{
    Box::leak(Box::new(data))
}

/// Which rich-text editor a page embeds.
pub enum Editor {
    Quill,
    Lexical,
}

} // verus!
