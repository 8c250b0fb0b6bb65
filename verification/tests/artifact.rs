use contest_harvest::artifact::{
    bytecodes_in, get_contracts_bytecodes, ArtifactMap, CompiledArtifact, ContractCode,
};

fn linked(name: &str, bytes: &[u8]) -> CompiledArtifact {
    CompiledArtifact { name: name.to_string(), code: ContractCode::Linked(bytes.to_vec()) }
}

fn unlinked(name: &str) -> CompiledArtifact {
    CompiledArtifact {
        name: name.to_string(),
        code: ContractCode::Unlinked("6080__$abc$__".to_string()),
    }
}

fn absent(name: &str) -> CompiledArtifact {
    CompiledArtifact { name: name.to_string(), code: ContractCode::Absent }
}

fn pair(name: &str, code: &str) -> (String, String) {
    (name.to_string(), code.to_string())
}

#[test]
fn a_linked_contract_gives_its_bytecode_in_hex() {
    let mut map = ArtifactMap::new();
    map.insert("Foo.sol", linked("Foo", &[0xde, 0xad, 0xbe, 0xef]));
    assert_eq!(get_contracts_bytecodes(&map, "Foo.sol"), Some(vec![pair("Foo", "deadbeef")]));
}

#[test]
fn an_unlinked_contract_gives_nothing_and_no_error() {
    let mut map = ArtifactMap::new();
    map.insert("Foo.sol", unlinked("Foo"));
    assert_eq!(get_contracts_bytecodes(&map, "Foo.sol"), None);
}

#[test]
fn hex_has_two_lower_case_digits_for_each_byte() {
    let all: Vec<u8> = (0..=255).collect();
    let found = bytecodes_in(&vec![linked("All", &all), linked("None", &[])]);
    let mut expected = String::new();
    for byte in 0..=255u32 {
        for nibble in [byte / 16, byte % 16] {
            expected.push(std::char::from_digit(nibble, 16).unwrap());
        }
    }
    assert_eq!(found, vec![pair("All", &expected), pair("None", "")]);
    assert_eq!(
        bytecodes_in(&vec![linked("A", &[0x00, 0x0f, 0xf0, 0xff, 0x1a, 0xa1])]),
        vec![pair("A", "000ff0ff1aa1")]
    );
}

#[test]
fn only_linked_contracts_surface_in_their_order() {
    let contracts = vec![
        linked("B", &[1]),
        unlinked("U"),
        absent("N"),
        linked("A", &[2, 3]),
    ];
    assert_eq!(bytecodes_in(&contracts), vec![pair("B", "01"), pair("A", "0203")]);
    assert!(bytecodes_in(&vec![unlinked("U"), absent("N")]).is_empty());
    assert!(bytecodes_in(&Vec::new()).is_empty());
}

#[test]
fn bytecodes_come_in_the_order_of_the_names_however_they_were_registered() {
    let names = ["Zeta", "alpha", "Beta", "B", "", "Be", "\u{e9}t\u{e9}", "Beta2", "z"];
    let mut map = ArtifactMap::new();
    for (i, name) in names.iter().enumerate() {
        map.insert("All.sol", linked(name, &[i as u8]));
    }
    let mut sorted: Vec<(usize, &str)> = names.iter().copied().enumerate().collect();
    sorted.sort_by_key(|entry| entry.1);
    let expected: Vec<(String, String)> =
        sorted.iter().map(|(i, name)| pair(name, &format!("{:02x}", i))).collect();
    assert_eq!(get_contracts_bytecodes(&map, "All.sol"), Some(expected));

    let mut reversed = ArtifactMap::new();
    for (i, name) in names.iter().enumerate().rev() {
        reversed.insert("All.sol", linked(name, &[i as u8]));
    }
    assert_eq!(
        get_contracts_bytecodes(&reversed, "All.sol"),
        get_contracts_bytecodes(&map, "All.sol")
    );
}

#[test]
fn an_unknown_or_empty_file_gives_nothing() {
    let mut map = ArtifactMap::new();
    assert_eq!(get_contracts_bytecodes(&map, "Foo.sol"), None);
    map.insert("Foo.sol", linked("Foo", &[1]));
    map.insert("Bar.sol", absent("Bar"));
    assert_eq!(get_contracts_bytecodes(&map, "Baz.sol"), None);
    assert_eq!(get_contracts_bytecodes(&map, "foo.sol"), None);
    assert_eq!(get_contracts_bytecodes(&map, ""), None);
    assert_eq!(get_contracts_bytecodes(&map, "Bar.sol"), None);
    assert_eq!(get_contracts_bytecodes(&map, "Foo.sol"), Some(vec![pair("Foo", "01")]));
}

#[test]
fn the_map_keeps_one_entry_for_each_key() {
    let mut map = ArtifactMap::new();
    assert_eq!(map.len(), 0);
    map.insert("A.sol", linked("Y", &[1]));
    map.insert("B.sol", linked("X", &[2]));
    map.insert("A.sol", linked("X", &[3]));
    map.insert("A.sol", linked("Y", &[4]));
    map.insert("B.sol", unlinked("X"));
    assert_eq!(map.len(), 2);
    assert_eq!(
        get_contracts_bytecodes(&map, "A.sol"),
        Some(vec![pair("X", "03"), pair("Y", "04")])
    );
    assert_eq!(get_contracts_bytecodes(&map, "B.sol"), None);
    let names: Vec<&str> =
        map.contracts_in("A.sol").unwrap().iter().map(|one| one.name.as_str()).collect();
    assert_eq!(names, vec!["X", "Y"]);
    assert_eq!(map.contracts_in("B.sol").unwrap().len(), 1);
    assert!(map.contracts_in("C.sol").is_none());
}
