use bootstrap_cache::{
    parse_contacts, serialise_contacts, BootstrapHandler, Contact, Contacts, Host, Stored,
    Transport, MAX_CONTACTS,
};

/// A contact on TCP at a random IPv4 address and port.
fn random_contact() -> Contact {
    let mut ip = Vec::with_capacity(4);
    ip.push(rand::random::<u8>());
    ip.push(rand::random::<u8>());
    ip.push(rand::random::<u8>());
    ip.push(rand::random::<u8>());
    let port = rand::random::<u16>();
    Contact {
        transport: Transport::Tcp,
        host: Host::V4(u32::from_be_bytes([ip[0], ip[1], ip[2], ip[3]])),
        port,
    }
}

/// `number` different random contacts.
fn random_contacts(number: usize) -> Contacts {
    let mut contacts = Vec::new();
    while contacts.len() < number {
        let contact = random_contact();
        if !contacts.contains(&contact) {
            contacts.push(contact);
        }
    }
    contacts
}

/// A random contact that `contacts` does not hold.
fn another_contact(contacts: &Contacts) -> Contact {
    loop {
        let contact = random_contact();
        if !contacts.contains(&contact) {
            return contact;
        }
    }
}

/// What a read of the file gives: `disk` stands for the file.
fn read(disk: &Option<Vec<u8>>) -> Stored {
    match disk {
        None => Stored::Absent,
        Some(bytes) => Stored::Bytes(bytes.clone()),
    }
}

/// Inserts through the handler and writes the image back to `disk`.
fn insert(
    handler: &mut BootstrapHandler,
    disk: &mut Option<Vec<u8>>,
    contacts: Contacts,
    prune: Contacts,
) -> bool {
    match handler.insert_contacts(read(disk), contacts, prune) {
        Ok(image) => {
            *disk = Some(image);
            true
        }
        Err(_) => false,
    }
}

/// Updates through the handler and writes the image back to `disk`.
fn update(
    handler: &mut BootstrapHandler,
    disk: &mut Option<Vec<u8>>,
    contacts: Contacts,
    prune: Contacts,
) -> bool {
    match handler.update_contacts(read(disk), contacts, prune) {
        Ok(image) => {
            *disk = Some(image);
            true
        }
        Err(_) => false,
    }
}

#[test]
fn serialisation() {
    let contact = Contact {
        transport: Transport::Tcp,
        host: Host::V4(u32::from_be_bytes([1, 2, 3, 4])),
        port: 8080,
    };
    let mut contacts = Contacts::new();
    contacts.push(contact.clone());
    contacts.push(contact.clone());
    let encoded = serialise_contacts(contacts.clone());
    let decoded: Contacts = parse_contacts(encoded).unwrap();
    assert_eq!(contacts, decoded);
}

#[test]
fn bootstrap_handler_test() {
    let contacts = random_contacts(10);

    let mut bootstrap_handler = BootstrapHandler::new("bootstrap_handler_test");
    // The file is created empty.
    let mut disk = Some(Vec::new());
    // Add Contacts
    assert!(insert(&mut bootstrap_handler, &mut disk, contacts.clone(), Contacts::new()));

    // Add duplicate contacts
    for _ in 1..100 {
        assert!(insert(&mut bootstrap_handler, &mut disk, contacts.clone(), Contacts::new()));
    }

    let read_contacts: Contacts = bootstrap_handler.read_bootstrap_file(read(&disk)).unwrap();

    assert_eq!(read_contacts, contacts);
}

#[test]
fn duplicates() {
    let number = 10usize;
    let contacts = random_contacts(number);

    let mut bootstrap_handler = BootstrapHandler::new("duplicates");
    let mut disk = Some(Vec::new());

    // add contacts...
    assert!(update(&mut bootstrap_handler, &mut disk, contacts.clone(), Contacts::new()));

    let recovered_contacts = bootstrap_handler.read_bootstrap_file(read(&disk)).unwrap();

    assert_eq!(recovered_contacts, contacts);
    assert_eq!(recovered_contacts.len(), number);

    // try duplicating each contact...
    for i in 0..number {
        let mut duplicate_contacts = Vec::new();
        duplicate_contacts.push(contacts[i].clone());
        assert!(update(&mut bootstrap_handler, &mut disk, duplicate_contacts, Contacts::new()));
    }

    let recovered_contacts = bootstrap_handler.read_bootstrap_file(read(&disk)).unwrap();

    // bootstrap contacts should remain unaltered...
    assert_eq!(recovered_contacts, contacts);
    assert_eq!(recovered_contacts.len(), number);
}

#[test]
fn prune() {
    let number = 10usize;
    let mut contacts = random_contacts(number);

    let mut bootstrap_handler = BootstrapHandler::new("prune");
    let mut disk = Some(Vec::new());

    // add contacts...
    assert!(update(&mut bootstrap_handler, &mut disk, contacts.clone(), Contacts::new()));

    let recovered_contacts = bootstrap_handler.read_bootstrap_file(read(&disk)).unwrap();

    assert_eq!(recovered_contacts, contacts);
    assert_eq!(recovered_contacts.len(), number);

    // prune each contact...
    for i in 0..number {
        let mut prune_contacts = Vec::new();
        prune_contacts.push(contacts[i].clone());
        assert!(update(&mut bootstrap_handler, &mut disk, Contacts::new(), prune_contacts));
    }

    let recovered_contacts = bootstrap_handler.read_bootstrap_file(read(&disk)).unwrap();

    // bootstrap contacts should be empty...
    assert!(recovered_contacts.is_empty());

    // add the contacts back...
    assert!(update(&mut bootstrap_handler, &mut disk, contacts.clone(), Contacts::new()));

    let recovered_contacts = bootstrap_handler.read_bootstrap_file(read(&disk)).unwrap();

    assert_eq!(recovered_contacts, contacts);
    assert_eq!(recovered_contacts.len(), number);

    // create a new contact...
    let new_contact = another_contact(&contacts);
    let mut new_contacts = Vec::new();
    new_contacts.push(new_contact.clone());

    // get the last contact in the list and prune it from the bootstrap file...
    let prune_contact = recovered_contacts[recovered_contacts.len() - 1].clone();
    let mut prune_contacts = Vec::new();
    prune_contacts.push(prune_contact.clone());

    // add the new contact while pruning the last...
    assert!(update(&mut bootstrap_handler, &mut disk, new_contacts.clone(), prune_contacts.clone()));

    let recovered_contacts = bootstrap_handler.read_bootstrap_file(read(&disk)).unwrap();

    // update contact list with expected entries...
    let _ = contacts.remove(number - 1);
    contacts.insert(0usize, new_contact.clone());

    // check the entries...
    assert_eq!(recovered_contacts, contacts);
    assert_eq!(recovered_contacts.len(), number);
}

#[test]
fn oldest() {
    let number = 12usize;
    let twice_number = number * 2;
    let half_number = number / 2;
    let contacts = random_contacts(number);

    let mut bootstrap_handler = BootstrapHandler::new("oldest");
    let mut disk = Some(Vec::new());

    // add contacts...
    assert!(update(&mut bootstrap_handler, &mut disk, contacts.clone(), Contacts::new()));
    // try taking more than existing number...
    let oldest_contacts = bootstrap_handler.oldest_contacts(read(&disk), twice_number).unwrap();
    let reversed_contacts =
        contacts.iter().rev().map(|e| e.clone()).take(number).collect::<Contacts>();

    assert_eq!(oldest_contacts, reversed_contacts);
    assert_eq!(oldest_contacts.len(), number);

    let oldest_contacts = bootstrap_handler.oldest_contacts(read(&disk), half_number).unwrap();
    let reversed_contacts =
        contacts.iter().rev().map(|e| e.clone()).take(half_number).collect::<Contacts>();

    assert_eq!(oldest_contacts, reversed_contacts);
    assert_eq!(oldest_contacts.len(), half_number);
}

#[test]
fn max_contacts() {
    let contacts = random_contacts(MAX_CONTACTS);

    let mut bootstrap_handler = BootstrapHandler::new("max_contacts");
    let mut disk = Some(Vec::new());

    // insert contacts...
    assert!(insert(&mut bootstrap_handler, &mut disk, contacts.clone(), Contacts::new()));
    let recovered_contacts = bootstrap_handler.read_bootstrap_file(read(&disk)).unwrap();
    // check that the recovered contacts are the same as the originals...
    assert_eq!(recovered_contacts, contacts);
    // check the number of contacts is MAX_CONTACTS...
    assert_eq!(recovered_contacts.len(), MAX_CONTACTS);

    // create a new contact...
    let new_contact = another_contact(&contacts);
    let mut new_contacts = Vec::new();
    new_contacts.push(new_contact.clone());

    // try inserting without also pruning...
    assert!(insert(&mut bootstrap_handler, &mut disk, new_contacts.clone(), Contacts::new()));
    let recovered_contacts = bootstrap_handler.read_bootstrap_file(read(&disk)).unwrap();
    // check that the recovered contacts are the same as the originals...
    assert_eq!(recovered_contacts, contacts);
    // ...and that the number of contacts is still MAX_CONTACTS...
    assert_eq!(recovered_contacts.len(), MAX_CONTACTS);

    // get the last contact in the list and prune it from the bootstrap file...
    let prune_contact = recovered_contacts[recovered_contacts.len() - 1].clone();
    let mut prune_contacts = Vec::new();
    prune_contacts.push(prune_contact.clone());

    // insert the new contact again pruning the last entry...
    assert!(insert(&mut bootstrap_handler, &mut disk, new_contacts.clone(), prune_contacts.clone()));
    let recovered_contacts = bootstrap_handler.read_bootstrap_file(read(&disk)).unwrap();

    // check that the recovered contacts are not the same as the originals...
    assert!(recovered_contacts != contacts);
    // ...and that the number of contacts is still MAX_CONTACTS...
    assert_eq!(recovered_contacts.len(), MAX_CONTACTS);
    // check that the pruned contact is not still at the end of the list...
    let last_contact = recovered_contacts[recovered_contacts.len() - 1].clone();
    assert!(last_contact != prune_contact.clone());
    // check that the new contact is at the start of the list...
    let first_contact = recovered_contacts[0].clone();
    assert_eq!(first_contact, new_contact.clone());
}
