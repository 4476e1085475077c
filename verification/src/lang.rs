//! The language selected for the installed system: an internal name, a
//! display name, and the POSIX locale string written to the locale
//! configuration. The catalog the languages are loaded from is outside the
//! verified core; the loader hands each entry to [`Language::new`].

use vstd::prelude::*;

verus! {

/// A language.
#[derive(Clone, Debug)]
pub struct Language {
    /// The name of the language used to select it.
    name: String,
    /// The display name of the language.
    display_name: String,
    /// The POSIX locale string of the language.
    locale: String,
}

impl Language {
    /// The language's internal name.
    pub closed spec fn spec_name(&self) -> Seq<char> {
        self.name@
    }

    /// The language's display name.
    pub closed spec fn spec_display_name(&self) -> Seq<char> {
        self.display_name@
    }

    /// The language's POSIX locale string.
    pub closed spec fn spec_locale(&self) -> Seq<char> {
        self.locale@
    }

    /// Builds a language from its internal name, its display name and its
    /// POSIX locale string.
    pub fn new(name: String, display_name: String, locale: String) -> (r: Self)
        ensures
            r.spec_name() == name@,
            r.spec_display_name() == display_name@,
            r.spec_locale() == locale@,
    {
        Self { name, display_name, locale }
    }

    /// The name used to select the language.
    pub fn get_name(&self) -> (r: &str)
        ensures
            r@ == self.spec_name(),
    {
        self.name.as_str()
    }

    /// The POSIX locale string, e.g. `en_US.UTF-8`.
    pub fn get_locale(&self) -> (r: &str)
        ensures
            r@ == self.spec_locale(),
    {
        self.locale.as_str()
    }

    /// Renders the language as `<name> - <display name>` for listings.
    pub fn to_display_string(&self) -> (r: String)
        ensures
            r@ == self.spec_name() + " - "@ + self.spec_display_name(),
    {
        let mut s = String::from_str(self.name.as_str());
        s.append(" - ");
        s.append(self.display_name.as_str());
        s
    }
}

} // verus!
