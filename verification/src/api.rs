//! Data carried between the packaging engine and the remote-disk workflow.
//! The network calls themselves live outside the library; these are the plain
//! records they exchange, and the one check the workflow applies to them.

use vstd::prelude::*;

verus! {

/// One item listed in a remote directory.
#[derive(Clone, Debug)]
pub struct DiskItem {
    pub created: String,
    pub modified: String,
    pub name: String,
    pub path: String,
    pub resource_id: String,
}

/// A granted upload slot: where to send the archive bytes and how.
#[derive(Clone, Debug)]
pub struct UploadOperation {
    pub operation_id: String,
    pub href: String,
    pub method: String,
}

/// An upload slot is usable exactly when it carries a target and the
/// expected `PUT` method.
pub fn upload_operation_ok(op: &UploadOperation) -> (r: bool)
    ensures
        r == (op.href@.len() > 0 && op.method@ == "PUT"@),
{
    let put = String::from_str("PUT");
    op.href.as_str().unicode_len() > 0 && op.method == put
}

/// An upload response status is accepted exactly when it reports created
/// (201) or accepted (202).
pub fn upload_status_ok(status: u16) -> (r: bool)
    ensures
        r == (status == 201 || status == 202),
{
    status == 201 || status == 202
}

} // verus!
