//! A terminal todo list: tasks with priorities and due dates, a filtered and
//! searchable list, a task form, and catalogs of interface texts in several
//! languages.
pub mod app;
pub mod catalog;
pub mod cli;
pub mod clock;
pub mod error;
pub mod i18n;
pub mod model;
pub mod storage;
pub mod text;
pub mod ui;

use vstd::prelude::*;
use crate::app::{error_message, translate_error};
use crate::error::AppError;
use crate::i18n::{lookup, I18n};
use crate::text::append_str;

verus! {

/// The line reported for an error that stops the program: the catalog's
/// prefix for errors, a colon and a space, and the error's own text.
pub fn localized_error(i18n: &I18n, error: &AppError) -> (r: String)
    ensures
        r@ == lookup(i18n.catalog(), "error.prefix"@) + ": "@ + error_message(
            i18n.catalog(),
            error@,
        ),
{
    let mut line = i18n.t("error.prefix");
    append_str(&mut line, ": ");
    let message = translate_error(i18n, error);
    append_str(&mut line, message.as_str());
    line
}

} // verus!
