use std::sync::Arc;

use table::application::TableAppState;
use table::model::Table;
use table::{ChangeTableDTO, CreateTableBody, TableError};

#[test]
fn app_state_create_update_read() {
    let state = TableAppState::new();
    let created = state
        .create_table(CreateTableBody {
            id: String::from("t"),
            size_y: 1,
            size_x: 1,
        })
        .unwrap();
    assert_eq!(created, Table::new(String::from("t"), 1, 1));
    assert_eq!(created.data, vec![vec![String::from("")]]);
    assert_eq!(
        state.change_table(ChangeTableDTO {
            id: String::from("t"),
            x: 0,
            y: 0,
            value: String::from("new value"),
        }),
        Ok(())
    );
    let table = state.get_table(String::from("t")).unwrap();
    assert_eq!(table.id, "t");
    assert_eq!(table.size_x, 1);
    assert_eq!(table.size_y, 1);
    assert_eq!(table.data, vec![vec![String::from("new value")]]);
}

#[test]
fn app_state_update_missing_id() {
    let state = TableAppState::new();
    state
        .create_table(CreateTableBody {
            id: String::from("t"),
            size_y: 1,
            size_x: 1,
        })
        .unwrap();
    assert_eq!(
        state.change_table(ChangeTableDTO {
            id: String::from("missing"),
            x: 0,
            y: 0,
            value: String::from("new value"),
        }),
        Err(TableError::NotFound)
    );
    assert_eq!(
        state.get_table(String::from("missing")),
        Err(TableError::NotFound)
    );
    assert_eq!(
        state.get_table(String::from("t")),
        Ok(Table::new(String::from("t"), 1, 1))
    );
}

#[test]
fn app_state_update_zero_row_table() {
    let state = TableAppState::new();
    state
        .create_table(CreateTableBody {
            id: String::from("t"),
            size_y: 0,
            size_x: 1,
        })
        .unwrap();
    assert_eq!(
        state.change_table(ChangeTableDTO {
            id: String::from("t"),
            x: 0,
            y: 0,
            value: String::from("new value"),
        }),
        Err(TableError::OutOfBounds)
    );
}

#[test]
fn app_state_shared_handles_see_one_registry() {
    let state = Arc::new(TableAppState::new());
    let writer = Arc::clone(&state);
    let reader = Arc::clone(&state);
    state
        .create_table(CreateTableBody {
            id: String::from("shared"),
            size_y: 1,
            size_x: 2,
        })
        .unwrap();
    writer
        .change_table(ChangeTableDTO {
            id: String::from("shared"),
            x: 1,
            y: 0,
            value: String::from("through another handle"),
        })
        .unwrap();
    let table = reader.get_table(String::from("shared")).unwrap();
    assert_eq!(
        table.get_value(0, 1),
        Some(&String::from("through another handle"))
    );
    assert_eq!(table.get_value(0, 0), Some(&String::from("")));
}
