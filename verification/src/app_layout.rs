//! The application's layout and drawer elements: which script the layout
//! needs, and what binding them to the page's elements gives.

use vstd::prelude::*;
use crate::error::Error;

verus! {

/// What looking an element up by a selector found: nothing, an element of
/// another type (by its debug text), or the element sought.
pub enum Lookup {
    NotFound,
    OtherType(String),
    Found,
}

/// The application's layout element, by the selector it was found with.
pub struct AppLayout {
    pub selector: String,
}

impl AppLayout {
    /// The script the layout element needs: where it is loaded from and
    /// the name of the component, `app-layout.js`.
    pub fn load_js(flow_ux_path: &str) -> (res: (String, &'static str))
        ensures
            res.0@ == flow_ux_path@,
            res.1@ == "app-layout.js"@,
    {
        (flow_ux_path.to_owned(), "app-layout.js")
    }

    /// Binds the layout element found with `selector`: an error reading
    /// `missing workspace AppLayout element` when there is none, one naming
    /// the selector and what was found when it is of another type.
    pub fn get(selector: &str, lookup: Lookup) -> (res: Result<AppLayout, Error>)
        ensures
            match lookup {
                Lookup::NotFound => res matches Err(Error::String(m)) && m@
                    == "missing workspace AppLayout element"@,
                Lookup::OtherType(v) => res matches Err(Error::String(m)) && m@ == "Unable to cast '"@
                    + selector@ + "' to AppLayout, JsValue:"@ + v@,
                Lookup::Found => res matches Ok(l) && l.selector@ == selector@,
            },
    {
        match lookup {
            Lookup::NotFound => Err(Error::String("missing workspace AppLayout element".to_owned())),
            Lookup::OtherType(v) => {
                let mut m = "Unable to cast '".to_owned();
                m.append(selector);
                m.append("' to AppLayout, JsValue:");
                m.append(v.as_str());
                Err(Error::String(m))
            },
            Lookup::Found => Ok(AppLayout { selector: selector.to_owned() }),
        }
    }
}

/// The application's drawer element, by the selector it was found with.
pub struct AppDrawer {
    pub selector: String,
}

impl AppDrawer {
    /// Binds the drawer element found with `selector`; an element of
    /// another type is an error holding it. There must be an element.
    pub fn get(selector: &str, lookup: Lookup) -> (res: Result<AppDrawer, Error>)
        requires
            !(lookup is NotFound),
        ensures
            match lookup {
                Lookup::OtherType(v) => res matches Err(Error::WebElement(e)) && e@ == v@,
                Lookup::Found => res matches Ok(d) && d.selector@ == selector@,
                Lookup::NotFound => false,
            },
    {
        match lookup {
            Lookup::OtherType(v) => Err(Error::WebElement(v)),
            _ => Ok(AppDrawer { selector: selector.to_owned() }),
        }
    }
}

} // verus!
