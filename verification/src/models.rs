//! Models slide-builder can run, each with the auth mode it will run under.
use crate::text::{chars_of, eq_chars};
use vstd::prelude::*;

verus! {

broadcast use vstd::string::group_string_axioms;

/// One selectable model together with the auth mode it will run under.
#[derive(Clone, Debug, PartialEq, Eq)]
pub struct AvailableModel {
    pub provider: String,
    pub model: String,
    pub display_name: String,
    pub auth: String,
}

impl AvailableModel {
    /// The entry for the configured provider and model, used when the
    /// configured model is no longer offered: the model is its own display
    /// name, and the auth mode is the configured one or empty.
    pub fn from_config(provider: &str, model: &str, auth_mode: Option<&str>) -> (r: AvailableModel)
        ensures
            r.provider@ == provider@,
            r.model@ == model@,
            r.display_name@ == model@,
            r.auth@ == match auth_mode {
                Some(a) => a@,
                None => Seq::<char>::empty(),
            },
    {
        AvailableModel {
            provider: provider.to_owned(),
            model: model.to_owned(),
            display_name: model.to_owned(),
            auth: match auth_mode {
                Some(a) => a.to_owned(),
                None => String::new(),
            },
        }
    }

    /// Whether this entry is the configured provider and model.
    pub fn matches_config(&self, provider: &str, model: &str) -> (r: bool)
        ensures
            r == (self.provider@ == provider@ && self.model@ == model@),
    {
        let a = chars_of(self.provider.as_str());
        let b = chars_of(provider);
        if !eq_chars(&a, &b) {
            return false;
        }
        let c = chars_of(self.model.as_str());
        let d = chars_of(model);
        eq_chars(&c, &d)
    }
}

} // verus!
