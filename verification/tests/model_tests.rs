use table::model::Table;

#[test]
fn test_new() {
    let table = Table::new(String::from("id"), 2, 3);
    assert_eq!(table.id, "id");
    assert_eq!(table.size_x, 3);
    assert_eq!(table.size_y, 2);
}

#[test]
fn test_size() {
    let table = Table::new(String::from("id"), 3, 3);
    assert_eq!(table.size(), 9);
}

#[test]
fn test_cells_count() {
    let table = Table::new(String::from("id"), 2, 3);
    assert_eq!(table.data.len(), 2);
    let data = table.data;
    data.iter().for_each(|vy| {
        assert_eq!(vy.len(), 3);
        vy.iter().for_each(|a| {
            assert_eq!(a.to_owned(), String::from(""));
        });
    });
}

#[test]
fn test_get_value() {
    let table = Table::new(String::from("id"), 2, 3);
    if let Some(value) = table.get_value(1, 1) {
        assert_eq!(value.to_owned(), String::from(""));
    } else {
        assert!(false, "It's expected to found the value");
    }
}

#[test]
fn test_set_value() {
    let mut table = Table::new(String::from("id"), 2, 3);
    match table.set_value(1, 1, String::from("hello world")) {
        Ok(_) => {}
        Err(_) => {
            assert!(false, "It's expected to set the value");
        }
    }
    let value = table.get_value(1, 1).unwrap();
    assert_eq!(value.to_owned(), String::from("hello world"));
    table.data.iter().enumerate().for_each(|(i, vy)| {
        vy.to_vec().iter().enumerate().for_each(|(k, vx)| {
            if i != 1 && k != 1 {
                assert_eq!(vx.to_owned(), String::from(""));
            }
        });
    });
}

#[test]
fn test_error_set_value() {
    let mut table = Table::new(String::from("id"), 2, 3);
    match table.set_value(4, 4, String::from("hello world")) {
        Ok(_) => {
            assert!(false, "It's expected to set the value");
        }
        Err(_) => {}
    }
}
