//! Office applications that can open a document.

use crate::text::{contains_text, views};
use vstd::prelude::*;

verus! {

/// An office application that is installed.
#[derive(Debug, Clone)]
pub struct OfficeAppInfo {
    /// What the application is called when a file is opened with it.
    pub id: String,
    /// The name to show.
    pub name: String,
    /// Where the application is installed.
    pub path: String,
}

/// The mathematical content of an [`OfficeAppInfo`]: id, name and path.
pub open spec fn app_view(app: OfficeAppInfo) -> (Seq<char>, Seq<char>, Seq<char>) {
    (app.id@, app.name@, app.path@)
}

/// The views of a list of applications.
pub open spec fn apps_view(apps: Seq<OfficeAppInfo>) -> Seq<(Seq<char>, Seq<char>, Seq<char>)> {
    apps.map_values(|app: OfficeAppInfo| app_view(app))
}

/// The office applications that are looked for, in the order in which they
/// are offered.
pub open spec fn known_apps() -> Seq<(Seq<char>, Seq<char>, Seq<char>)> {
    seq![
        ("wpsoffice"@, "WPS Office"@, "/Applications/wpsoffice.app"@),
        ("Microsoft Word"@, "Microsoft Word"@, "/Applications/Microsoft Word.app"@),
        ("Microsoft Excel"@, "Microsoft Excel"@, "/Applications/Microsoft Excel.app"@),
        ("Microsoft PowerPoint"@, "Microsoft PowerPoint"@, "/Applications/Microsoft PowerPoint.app"@),
        ("LibreOffice"@, "LibreOffice"@, "/Applications/LibreOffice.app"@),
    ]
}

/// Those of `apps` whose path is among `existing`, in the order of `apps`.
pub open spec fn installed(
    apps: Seq<(Seq<char>, Seq<char>, Seq<char>)>,
    existing: Seq<Seq<char>>,
) -> Seq<(Seq<char>, Seq<char>, Seq<char>)>
    decreases apps.len(),
{
    if apps.len() == 0 {
        Seq::empty()
    } else if existing.contains(apps.last().2) {
        installed(apps.drop_last(), existing).push(apps.last())
    } else {
        installed(apps.drop_last(), existing)
    }
}

/// One application that is looked for.
fn app(id: &str, name: &str, path: &str) -> (out: OfficeAppInfo)
    ensures
        app_view(out) == (id@, name@, path@),
{
    OfficeAppInfo { id: id.to_string(), name: name.to_string(), path: path.to_string() }
}

/// The office applications that are looked for.
pub fn office_candidates() -> (apps: Vec<OfficeAppInfo>)
    ensures
        apps_view(apps@) == known_apps(),
{
    let mut apps: Vec<OfficeAppInfo> = Vec::new();
    apps.push(app("wpsoffice", "WPS Office", "/Applications/wpsoffice.app"));
    apps.push(app("Microsoft Word", "Microsoft Word", "/Applications/Microsoft Word.app"));
    apps.push(app("Microsoft Excel", "Microsoft Excel", "/Applications/Microsoft Excel.app"));
    apps.push(
        app("Microsoft PowerPoint", "Microsoft PowerPoint", "/Applications/Microsoft PowerPoint.app"),
    );
    apps.push(app("LibreOffice", "LibreOffice", "/Applications/LibreOffice.app"));
    assert(apps_view(apps@) =~= known_apps());
    apps
}

/// The office applications that are installed: the known ones whose path is
/// among `existing`, the paths that were found on disk.
pub fn detect_office_apps(existing: &Vec<String>) -> (apps: Vec<OfficeAppInfo>)
    ensures
        apps_view(apps@) == installed(known_apps(), views(existing@)),
{
    let mut all = office_candidates();
    let ghost known = apps_view(all@);
    let n = all.len();
    let mut apps: Vec<OfficeAppInfo> = Vec::new();
    let mut i: usize = 0;
    assert(apps_view(apps@) =~= installed(known.take(0), views(existing@)));
    while i < n
        invariant
            i <= n,
            n == all.len(),
            known.len() == n,
            known == known_apps(),
            forall|k: int| i <= k < n ==> app_view(#[trigger] all@[k]) == known[k],
            apps_view(apps@) == installed(known.take(i as int), views(existing@)),
        decreases n - i,
    {
        proof {
            assert(known.take(i + 1).drop_last() == known.take(i as int));
            assert(known.take(i + 1).last() == known[i as int]);
        }
        let ghost sofar = apps_view(apps@);
        if contains_text(existing, all[i].path.as_str()) {
            let found = all[i].clone_app();
            apps.push(found);
            assert(apps_view(apps@) =~= sofar.push(known[i as int]));
        }
        i += 1;
    }
    assert(known.take(n as int) == known);
    apps
}

impl OfficeAppInfo {
    /// A copy of the application's entry.
    fn clone_app(&self) -> (out: OfficeAppInfo)
        ensures
            app_view(out) == app_view(*self),
    {
        OfficeAppInfo { id: self.id.clone(), name: self.name.clone(), path: self.path.clone() }
    }
}

} // verus!
