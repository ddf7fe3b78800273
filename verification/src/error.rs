//! Errors reported by the library, and the messages they read as.

use vstd::prelude::*;

verus! {

/// What went wrong. Where the cause is a page element or a script value,
/// its debug text stands for it.
#[allow(non_camel_case_types)]
#[derive(Debug)]
pub enum Error {
    /// A message.
    String(String),
    /// A script value, by its debug text.
    JsValue(String),
    /// Registering a module failed: the module and the reason.
    ModuleRegistrationFailure(String, String),
    /// A page element, by its debug text.
    WebElement(String),
    /// A lock could not be taken.
    PoisonError(String),
    /// A channel refused a message.
    ChannelSendError(String),
    /// A channel gave no message.
    ChannelReceiveError(String),
    /// The element whose parent is missing, by its debug text.
    ParentNotFound(String),
    /// An HTML layout holds bindings that no field uses: the layout and the
    /// unused bindings.
    MissingLayoutBindings(String, String),
    /// No element has the id: the caller and the id.
    MissingElement(String, String),
    /// No parent element has the id: the caller and the id.
    MissingParent(String, String),
    /// A menu item has no icon box.
    MissingIconBox,
    /// The application object has not been created.
    ApplicationGlobalNotInitialized,
    /// Translation failed, with its message.
    i18nError(String),
    /// The map from data types to modules has not been built.
    DataTypesToModuleMapMissing,
    /// The document has no body.
    UnableToGetBody,
    /// A timer failed, with its message.
    TimerError(String),
    /// A dialog failed.
    DialogError(String),
}

/// The message an error reads as.
pub open spec fn error_message(e: Error) -> Seq<char> {
    match e {
        Error::String(s) => s@,
        Error::JsValue(v) => "JsValue: "@ + v@,
        Error::ModuleRegistrationFailure(m, r) => "Module "@ + m@ + " registration failure: "@ + r@,
        Error::WebElement(e) => "WebElement: "@ + e@,
        Error::PoisonError(s) => "PoisonError: "@ + s@,
        Error::ChannelSendError(s) => "Channel send error: "@ + s@,
        Error::ChannelReceiveError(s) => "Channel receive error: "@ + s@,
        Error::ParentNotFound(e) => "Parent element not found "@ + e@,
        Error::MissingLayoutBindings(l, b) => "Layout<"@ + l@
            + ">: the supplied HTML contains bindings that are not used: "@ + b@,
        Error::MissingElement(c, id) => "["@ + c@ + "]: Unable to locate element with id "@ + id@,
        Error::MissingParent(c, id) => "["@ + c@ + "]: Unable to locate parent element with id "@ + id@,
        Error::MissingIconBox => "Menu: icon-box element is missing"@,
        Error::ApplicationGlobalNotInitialized => "Application global is not initialized"@,
        Error::i18nError(s) => s@,
        Error::DataTypesToModuleMapMissing =>
            "data_types_to_modules map is missing; ensure modules::seal() is invoked after module registration"@,
        Error::UnableToGetBody => "Unable to obtain document body"@,
        Error::TimerError(s) => "Timer error: "@ + s@,
        Error::DialogError(s) => "Dialog error: "@ + s@,
    }
}

fn joined(parts: Vec<&str>) -> (res: String)
    ensures
        res@ == parts@.fold_left(Seq::<char>::empty(), |acc: Seq<char>, p: &str| acc + p@),
{
    let mut res = String::new();
    let mut i: usize = 0;
    while i < parts.len()
        invariant
            i <= parts@.len(),
            res@ == parts@.take(i as int).fold_left(
                Seq::<char>::empty(),
                |acc: Seq<char>, p: &str| acc + p@,
            ),
        decreases parts@.len() - i,
    {
        proof {
            assert(parts@.take(i + 1).drop_last() =~= parts@.take(i as int));
        }
        res.append(parts[i]);
        i = i + 1;
    }
    proof {
        assert(parts@.take(parts@.len() as int) =~= parts@);
    }
    res
}

impl Error {
    /// The message the error reads as.
    pub fn message(&self) -> (res: String)
        ensures
            res@ == error_message(*self),
    {
        let parts: Vec<&str> = match self {
            Error::String(s) => vec![s.as_str()],
            Error::JsValue(v) => vec!["JsValue: ", v.as_str()],
            Error::ModuleRegistrationFailure(m, r) => vec![
                "Module ",
                m.as_str(),
                " registration failure: ",
                r.as_str(),
            ],
            Error::WebElement(e) => vec!["WebElement: ", e.as_str()],
            Error::PoisonError(s) => vec!["PoisonError: ", s.as_str()],
            Error::ChannelSendError(s) => vec!["Channel send error: ", s.as_str()],
            Error::ChannelReceiveError(s) => vec!["Channel receive error: ", s.as_str()],
            Error::ParentNotFound(e) => vec!["Parent element not found ", e.as_str()],
            Error::MissingLayoutBindings(l, b) => vec![
                "Layout<",
                l.as_str(),
                ">: the supplied HTML contains bindings that are not used: ",
                b.as_str(),
            ],
            Error::MissingElement(c, id) => vec![
                "[",
                c.as_str(),
                "]: Unable to locate element with id ",
                id.as_str(),
            ],
            Error::MissingParent(c, id) => vec![
                "[",
                c.as_str(),
                "]: Unable to locate parent element with id ",
                id.as_str(),
            ],
            Error::MissingIconBox => vec!["Menu: icon-box element is missing"],
            Error::ApplicationGlobalNotInitialized => vec!["Application global is not initialized"],
            Error::i18nError(s) => vec![s.as_str()],
            Error::DataTypesToModuleMapMissing => vec![
                "data_types_to_modules map is missing; ensure modules::seal() is invoked after module registration",
            ],
            Error::UnableToGetBody => vec!["Unable to obtain document body"],
            Error::TimerError(s) => vec!["Timer error: ", s.as_str()],
            Error::DialogError(s) => vec!["Dialog error: ", s.as_str()],
        };
        let res = joined(parts);
        proof {
            reveal_with_fuel(Seq::fold_left, 5);
        }
        res
    }

    /// An error with the given message.
    pub fn from_message(s: &str) -> (res: Error)
        ensures
            res matches Error::String(m) && m@ == s@,
    {
        Error::String(s.to_owned())
    }
}

} // verus!
