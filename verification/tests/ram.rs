use icmc::ram::{Ram, RamError};

#[test]
fn test_get() {
    let memory = [1, 2, 3, 4, 5];
    let mut ram = Ram::new();

    ram.load(&memory);
    assert_eq!(memory[3], ram.get(3).unwrap());
}

#[test]
fn test_set() {
    let memory = [1, 2, 3, 4, 5];
    let mut ram = Ram::new();

    ram.load(&memory);
    ram.set(3, 10).unwrap();
    assert_eq!(10, ram.get(3).unwrap());
}

#[test]
fn ram_out_of_range() {
    let mut ram = Ram::with_capacity(4);
    ram.load(&[7, 8]);
    assert_eq!(Err(RamError::InvalidAddress { index: 2 }), ram.get(2));
    assert_eq!(Err(RamError::InvalidAddress { index: 5 }), ram.set(5, 1));
    assert_eq!(8, ram.get(1).unwrap());
}

#[test]
fn ram_load_replaces_contents() {
    let mut ram = Ram::new();
    ram.load(&[1, 2, 3]);
    ram.load(&[9]);
    assert_eq!(9, ram.get(0).unwrap());
    assert!(ram.get(1).is_err());
}

#[test]
fn ram_error_message() {
    assert_eq!("Endereço inválido: 3", RamError::InvalidAddress { index: 3 }.to_string());
}
