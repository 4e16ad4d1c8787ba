use vstd::prelude::*;

use crate::database::StoreError;
use crate::response::ApiResponse;

verus! {

/// The five requests that the HTTP layer forwards to the store.
pub enum Operation {
    SetData,
    GetData,
    UpdateData,
    DeleteData,
    DeleteTable,
}

/// HTTP status: the request was served.
pub const OK: u16 = 200;

/// HTTP status: the requested key holds no record.
pub const NOT_FOUND: u16 = 404;

/// HTTP status: the store reported a failure.
pub const INTERNAL_SERVER_ERROR: u16 = 500;

/// The message of a served request.
pub open spec fn success_message(op: Operation) -> Seq<char> {
    match op {
        Operation::SetData => "Data set successfully"@,
        Operation::GetData => "Data retrieved successfully"@,
        Operation::UpdateData => "Data updated successfully"@,
        Operation::DeleteData => "Data deleted successfully"@,
        Operation::DeleteTable => "Table deleted successfully"@,
    }
}

/// The fixed message of a request that the store failed; the backend's own
/// description is never part of it.
pub open spec fn failure_message(op: Operation) -> Seq<char> {
    match op {
        Operation::SetData => "Failed to set data"@,
        Operation::GetData => "Failed to retrieve data"@,
        Operation::UpdateData => "Failed to update data"@,
        Operation::DeleteData => "Failed to delete data"@,
        Operation::DeleteTable => "Failed to delete table"@,
    }
}

/// An HTTP status code with the JSON envelope to send.
pub struct Reply {
    pub code: u16,
    pub body: ApiResponse<String>,
}

/// The reply to `op` once the store has answered with `outcome` (for a read,
/// the value found; for the other operations, `Ok(None)`).
pub fn reply(op: Operation, outcome: Result<Option<String>, StoreError>) -> (r: Reply)
    ensures
        outcome is Err ==> r.code == INTERNAL_SERVER_ERROR && r.body.status@ == "error"@
            && r.body.message@ == failure_message(op) && r.body.data is None,
        outcome is Ok && !(op is GetData) ==> r.code == OK && r.body.status@ == "success"@
            && r.body.message@ == success_message(op) && r.body.data is None,
        op is GetData ==> match outcome {
            Ok(Some(v)) => r.code == OK && r.body.status@ == "success"@ && r.body.message@
                == success_message(op) && r.body.data == Some(v),
            Ok(None) => r.code == NOT_FOUND && r.body.status@ == "error"@ && r.body.message@
                == "Data not found"@ && r.body.data is None,
            Err(_) => true,
        },
{
    match outcome {
        Err(_) => {
            let message = match op {
                Operation::SetData => "Failed to set data",
                Operation::GetData => "Failed to retrieve data",
                Operation::UpdateData => "Failed to update data",
                Operation::DeleteData => "Failed to delete data",
                Operation::DeleteTable => "Failed to delete table",
            };
            Reply { code: INTERNAL_SERVER_ERROR, body: ApiResponse::error(message) }
        },
        Ok(found) => match op {
            Operation::GetData => match found {
                Some(v) => Reply {
                    code: OK,
                    body: ApiResponse::success("Data retrieved successfully", Some(v)),
                },
                None => Reply { code: NOT_FOUND, body: ApiResponse::error("Data not found") },
            },
            Operation::SetData => Reply {
                code: OK,
                body: ApiResponse::success("Data set successfully", None),
            },
            Operation::UpdateData => Reply {
                code: OK,
                body: ApiResponse::success("Data updated successfully", None),
            },
            Operation::DeleteData => Reply {
                code: OK,
                body: ApiResponse::success("Data deleted successfully", None),
            },
            Operation::DeleteTable => Reply {
                code: OK,
                body: ApiResponse::success("Table deleted successfully", None),
            },
        },
    }
}

} // verus!
