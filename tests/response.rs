use xcloud::database::StoreError;
use xcloud::reply::{reply, Operation, INTERNAL_SERVER_ERROR, NOT_FOUND, OK};
use xcloud::response::ApiResponse;

#[test]
fn test_success_response() {
    let response: ApiResponse<&str> = ApiResponse::success("Operation successful", Some("data"));
    assert_eq!(response.status, "success");
    assert_eq!(response.message, "Operation successful");
    assert_eq!(response.data, Some("data"));
}

#[test]
fn test_error_response() {
    let response: ApiResponse<()> = ApiResponse::error("Operation failed");
    assert_eq!(response.status, "error");
    assert_eq!(response.message, "Operation failed");
    assert_eq!(response.data, None);
}

#[test]
fn set_reply_is_success_without_data() {
    let r = reply(Operation::SetData, Ok(None));
    assert_eq!(r.code, OK);
    assert_eq!(r.body.status, "success");
    assert_eq!(r.body.message, "Data set successfully");
    assert_eq!(r.body.data, None);
}

#[test]
fn get_reply_carries_value() {
    let r = reply(Operation::GetData, Ok(Some("alice".to_string())));
    assert_eq!(r.code, 200);
    assert_eq!(r.body.status, "success");
    assert_eq!(r.body.message, "Data retrieved successfully");
    assert_eq!(r.body.data, Some("alice".to_string()));
}

#[test]
fn get_reply_for_missing_key_is_not_found() {
    let r = reply(Operation::GetData, Ok(None));
    assert_eq!(r.code, NOT_FOUND);
    assert_eq!(r.code, 404);
    assert_eq!(r.body.status, "error");
    assert_eq!(r.body.message, "Data not found");
    assert_eq!(r.body.data, None);
}

#[test]
fn update_reply_succeeds_even_without_record() {
    let r = reply(Operation::UpdateData, Ok(None));
    assert_eq!(r.code, 200);
    assert_eq!(r.body.message, "Data updated successfully");
}

#[test]
fn delete_replies_succeed() {
    let r = reply(Operation::DeleteData, Ok(None));
    assert_eq!(r.code, 200);
    assert_eq!(r.body.message, "Data deleted successfully");
    let r = reply(Operation::DeleteTable, Ok(None));
    assert_eq!(r.code, 200);
    assert_eq!(r.body.message, "Table deleted successfully");
}

#[test]
fn backend_unavailable_gives_opaque_500() {
    let r = reply(
        Operation::GetData,
        Err(StoreError::BackendUnavailable("connection refused by db.internal:3306".to_string())),
    );
    assert_eq!(r.code, INTERNAL_SERVER_ERROR);
    assert_eq!(r.code, 500);
    assert_eq!(r.body.status, "error");
    assert_eq!(r.body.message, "Failed to retrieve data");
    assert!(!r.body.message.contains("db.internal"));
    assert_eq!(r.body.data, None);
}

#[test]
fn statement_failure_gives_500_per_operation() {
    let cases = [
        (Operation::SetData, "Failed to set data"),
        (Operation::UpdateData, "Failed to update data"),
        (Operation::DeleteData, "Failed to delete data"),
        (Operation::DeleteTable, "Failed to delete table"),
    ];
    for (op, message) in cases {
        let r = reply(op, Err(StoreError::StatementFailed("syntax error".to_string())));
        assert_eq!(r.code, 500);
        assert_eq!(r.body.status, "error");
        assert_eq!(r.body.message, message);
        assert_eq!(r.body.data, None);
    }
}
