//! Scanning a tree of dictionary products and extracting the entries of
//! their resource archives, as far as this needs no file to be touched.
//!
//! What is decided stands here and is verified; what is read, fetched,
//! written and printed is left to the caller, who hands in plain values and
//! gets plain values back:
//!
//! - [`listing`]: a directory listing as values, and the selections made
//!   from one;
//! - [`dict`]: a product as its manifest describes it, and the plan for the
//!   scan of one dictionary directory;
//! - [`classify`]: the files of a content group sorted by their role, and
//!   what is to be opened there;
//! - [`archive`]: how an entry is identified and how its output file is
//!   named;
//! - [`extract`]: the extraction driver, a state machine that the caller
//!   feeds with the outcome of each action;
//! - [`run`]: a whole run of that driver, and what holds of every run;
//! - [`stats`]: the counter of labelled occurrences;
//! - [`report`]: what there is to tell the user, and the lines of text for
//!   it;
//! - [`text`]: comparing, numbering and joining text.

pub mod archive;
pub mod classify;
pub mod dict;
pub mod extract;
pub mod listing;
pub mod report;
pub mod run;
pub mod stats;
pub mod text;
