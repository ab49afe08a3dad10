//! One entry of the application catalog.

use vstd::prelude::*;

verus! {

/// What a catalog entry says: the four texts of an `MacOSApp`.
pub struct AppView {
    pub name: Seq<char>,
    pub path: Seq<char>,
    pub bundle_id: Seq<char>,
    pub icon: Seq<char>,
}

/// An installed application: display name, bundle path, bundle identifier
/// and an embeddable icon image, empty where none could be extracted.
#[derive(Debug)]
pub struct MacOSApp {
    name: String,
    path: String,
    bundle_id: String,
    icon: String,
}

impl View for MacOSApp {
    type V = AppView;

    closed spec fn view(&self) -> AppView {
        AppView { name: self.name@, path: self.path@, bundle_id: self.bundle_id@, icon: self.icon@ }
    }
}

/// The entries of a list of records, in order.
pub open spec fn views(records: Seq<MacOSApp>) -> Seq<AppView> {
    records.map_values(|r: MacOSApp| r@)
}

impl MacOSApp {
    /// A record of the four given texts.
    pub fn new(name: String, path: String, bundle_id: String, icon: String) -> (r: MacOSApp)
        ensures
            r@ == (AppView { name: name@, path: path@, bundle_id: bundle_id@, icon: icon@ }),
    {
        MacOSApp { name, path, bundle_id, icon }
    }

    /// The display name.
    pub fn name(&self) -> (r: &str)
        ensures
            r@ == self@.name,
    {
        self.name.as_str()
    }

    /// The path of the bundle.
    pub fn path(&self) -> (r: &str)
        ensures
            r@ == self@.path,
    {
        self.path.as_str()
    }

    /// The bundle identifier.
    pub fn bundle_id(&self) -> (r: &str)
        ensures
            r@ == self@.bundle_id,
    {
        self.bundle_id.as_str()
    }

    /// The icon payload; empty where the bundle gave none.
    pub fn icon(&self) -> (r: &str)
        ensures
            r@ == self@.icon,
    {
        self.icon.as_str()
    }

    /// Whether two records agree in all four fields.
    pub fn same_as(&self, other: &MacOSApp) -> (r: bool)
        ensures
            r == (self@ == other@),
    {
        self.name == other.name && self.path == other.path && self.bundle_id == other.bundle_id
            && self.icon == other.icon
    }

    /// A copy of the record.
    pub fn duplicate(&self) -> (r: MacOSApp)
        ensures
            r@ == self@,
    {
        MacOSApp {
            name: self.name.clone(),
            path: self.path.clone(),
            bundle_id: self.bundle_id.clone(),
            icon: self.icon.clone(),
        }
    }
}

} // verus!
