//! Reading Outlook `.msg` files (MS-OXMSG): the decisions and byte formats
//! of the reader, verified, over a snapshot of what the compound file holds.

pub mod decode;
pub mod error;
pub mod laws;
pub mod message;
pub mod names;
pub mod properties;
pub mod rtf_html;
pub mod storage;
