use std::collections::BTreeSet;

use it_company::pc::{CpuFlag, OperatingSystem, PcBuilder, PcHardware, GIBIBYTE};
use it_company::pc_directory::{OperationalState, PcDirectory, PcDirectoryError};
use it_company::person::{parse_email, Affiliation, ChfAmount, Person, PersonBuilder};

fn john_does_pc() -> PcBuilder {
    PcBuilder {
        owner: Some(
            PersonBuilder::new()
                .with_first_name("John")
                .with_last_name("Doe")
                .with_email_address("john@doe.com")
                .unwrap()
                .with_affiliation(Affiliation::Intern)
                .build()
                .unwrap(),
        ),
        os: Some(OperatingSystem::Windows7),
        ..Default::default()
    }
}

fn john2_does_pc() -> PcBuilder {
    PcBuilder {
        owner: Some(
            PersonBuilder::new()
                .with_first_name("John2")
                .with_last_name("Doe")
                .with_email_address("john@doe.com")
                .unwrap()
                .with_affiliation(Affiliation::Intern)
                .build()
                .unwrap(),
        ),
        os: Some(OperatingSystem::Windows7),
        ..Default::default()
    }
}

fn maria_dingong_pc() -> PcBuilder {
    PcBuilder {
        owner: Some(
            PersonBuilder::new()
                .with_first_name("Maria")
                .with_last_name("Dingdong")
                .with_email_address("maria@dingdong.com")
                .unwrap()
                .with_affiliation(Affiliation::Intern)
                .build()
                .unwrap(),
        ),
        os: Some(OperatingSystem::Windows11),
        ..Default::default()
    }
}

fn sample_person(first: &str, last: &str, email: &str, affiliation: Affiliation) -> Person {
    PersonBuilder::new()
        .with_first_name(first)
        .with_last_name(last)
        .with_email_address(email)
        .unwrap()
        .with_affiliation(affiliation)
        .build()
        .unwrap()
}

/// The sample directory the bootstrap layer seeds: six owners, two of
/// them on Windows Vista.
fn sample_directory() -> PcDirectory {
    let linux6 = OperatingSystem::Linux { major: 6, minor: 22 };
    let macos10 = OperatingSystem::MacOs { major: 10, minor: 14 };
    let super_income = Affiliation::Employee { annual_income: ChfAmount::new(10) };
    let mid_income = Affiliation::Employee { annual_income: ChfAmount::new(5) };
    let contractor = Affiliation::Contractor { company_name: "minisoft".to_string() };

    let people = [
        (
            sample_person("Maria", "Dingdong", "maria@dingong.com", super_income.clone()),
            OperatingSystem::Windows11,
            PcHardware::beefy_workstation(),
        ),
        (
            sample_person("Hans", "Overkill", "hans@overkill.com", super_income.clone()),
            linux6,
            PcHardware::nerd_workstation(),
        ),
        (
            sample_person("Sue", "Sensible", "sue@whatever.com", Affiliation::Intern),
            macos10,
            PcHardware::beefy_workstation(),
        ),
        (
            sample_person("Don", "Drumpf", "don@drumpf.com", mid_income),
            OperatingSystem::WindowsVista,
            PcHardware::normal(),
        ),
        (
            sample_person("Lex", "Long", "lexlong@voll.com", contractor),
            OperatingSystem::WindowsVista,
            PcHardware::normal(),
        ),
        (
            sample_person("Karl", "Keule", "karl@keule.com", super_income),
            linux6,
            PcHardware::nerd_workstation(),
        ),
    ];

    let mut dir = PcDirectory::default();
    for (owner, os, hardware) in people {
        dir.add_pc(PcBuilder { owner: Some(owner), os: Some(os), hardware: Some(hardware) })
            .unwrap();
    }
    dir
}

#[test]
fn test_maintenance() {
    let mut dir = PcDirectory::default();
    dir.add_pc(john_does_pc()).unwrap();
    let mut handles = Vec::new();
    for i in 0..dir.directory.len() {
        handles.push(dir.directory[i].acquire_maintenance_lock("test"));
    }
}

#[test]
fn test_maintenance_twice_fails() {
    let mut dir = PcDirectory::default();
    dir.add_pc(john_does_pc()).unwrap();
    let mut handles0 = Vec::new();
    for i in 0..dir.directory.len() {
        handles0.push(dir.directory[i].acquire_maintenance_lock("test"));
    }
    let mut handles1 = Vec::new();
    for i in 0..dir.directory.len() {
        handles1.push(dir.directory[i].acquire_maintenance_lock("test"));
    }

    assert!(handles0.iter().all(|h| h.is_ok()));
    assert!(handles1.iter().any(|h| h.is_err()));
}

#[test]
fn test_release_maintenance() {
    let mut dir = PcDirectory::default();
    dir.add_pc(john_does_pc()).unwrap();

    {
        let handle = dir.directory[0].acquire_maintenance_lock("test").unwrap();
        handle.update_os(&mut dir.directory[0], OperatingSystem::Linux { major: 5, minor: 5 });
        handle.release(&mut dir.directory[0]);
        // The lock on the maintenance state is given back here.
    }
    let again = dir.directory[0].acquire_maintenance_lock("test");
    assert!(again.is_ok());
}

#[test]
fn test_same_email_but_different_name_fails() {
    let mut dir = PcDirectory::default();
    dir.add_pc(john_does_pc()).unwrap();
    assert!(matches!(
        dir.add_pc(john2_does_pc()),
        Err(PcDirectoryError::DuplicateEmailAddress { email: _ })
    ));
}

#[test]
fn test_email_does_not_exist() {
    let mut dir = PcDirectory::default();
    dir.add_pc(john_does_pc()).unwrap();
    dir.add_pc(maria_dingong_pc()).unwrap();

    let given_email = parse_email("dings@bla.com").unwrap();
    assert!(matches!(
        dir.send_email("dings@bla.com", "my_message"),
        Err(PcDirectoryError::EmailNotFound { email }) if email == given_email
    ));
}

#[test]
fn test_cannot_send_email_to_don_while_upgrading_vist() {
    let mut dir = sample_directory();

    // send all vista users an email
    let mut addrs = BTreeSet::new();
    for pc in dir.iter_pcs() {
        if matches!(pc.state.os, OperatingSystem::WindowsVista) {
            if let Some(j) = pc.owner {
                addrs.insert(dir.owners[j].email.clone());
            }
        }
    }
    for addr in &addrs {
        dir.send_email(addr.as_str(), "upgrade!").unwrap();
    }

    // let's open up a maintenance window
    let vista: Vec<usize> = (0..dir.directory.len())
        .filter(|i| matches!(dir.directory[*i].state.os, OperatingSystem::WindowsVista))
        .collect();
    let mut handles = Vec::new();
    for i in &vista {
        handles.push((
            *i,
            dir.directory[*i]
                .acquire_maintenance_lock("Update from windows vista!")
                .unwrap(),
        ));
    }
    for (i, handle) in &handles {
        handle.update_os(&mut dir.directory[*i], OperatingSystem::Windows11);
    }

    assert!(dir.send_email("don@drumpf.com", "You are now on Windows 11!").is_err());

    for (i, handle) in handles {
        handle.release(&mut dir.directory[i]);
    }

    // but here, we can again!
    assert!(dir.send_email("don@drumpf.com", "You are now on Windows 11!").is_ok());
}

#[test]
fn pc_directory_test_maintenance() {
    let mut dir = PcDirectory::default();
    dir.add_pc(john_does_pc()).unwrap();
    let mut handles = Vec::new();
    for i in 0..dir.directory.len() {
        handles.push(dir.directory[i].acquire_maintenance_lock("test"));
    }
}

#[test]
fn pc_directory_test_maintenance_twice_fails() {
    let mut dir = PcDirectory::default();
    dir.add_pc(john_does_pc()).unwrap();
    let mut handles0 = Vec::new();
    for i in 0..dir.directory.len() {
        handles0.push(dir.directory[i].acquire_maintenance_lock("test"));
    }
    let mut handles1 = Vec::new();
    for i in 0..dir.directory.len() {
        handles1.push(dir.directory[i].acquire_maintenance_lock("test"));
    }

    assert!(handles0.iter().all(|h| matches!(h, Ok(_))));
    assert!(handles1.iter().any(|h| matches!(h, Err(_))));
}

#[test]
fn pc_directory_test_release_maintenance() {
    let mut dir = PcDirectory::default();
    dir.add_pc(john_does_pc()).unwrap();

    {
        let handle = dir.directory[0].acquire_maintenance_lock("test").unwrap();
        handle.update_os(&mut dir.directory[0], OperatingSystem::Linux { major: 5, minor: 5 });
        handle.release(&mut dir.directory[0]);
    }
    let again = dir.directory[0].acquire_maintenance_lock("test");
    assert!(matches!(again, Ok(_)));
}

#[test]
fn pc_directory_test_same_email_but_different_name_fails() {
    let mut dir = PcDirectory::default();
    dir.add_pc(john_does_pc()).unwrap();
    assert!(matches!(
        dir.add_pc(john2_does_pc()),
        Err(PcDirectoryError::DuplicateEmailAddress { email: _ })
    ));
}

#[test]
fn test_duplicate_email_reports_the_address() {
    let mut dir = PcDirectory::default();
    dir.add_pc(john_does_pc()).unwrap();
    match dir.add_pc(john2_does_pc()) {
        Err(PcDirectoryError::DuplicateEmailAddress { email }) => {
            assert_eq!(email.as_str(), "john@doe.com");
        },
        other => panic!("expected a duplicate-email error, got {other:?}"),
    }
    assert_eq!(dir.directory.len(), 1);
    assert_eq!(dir.owners.len(), 1);
}

#[test]
fn test_identical_owner_shares_one_record() {
    let mut dir = PcDirectory::default();
    dir.add_pc(john_does_pc()).unwrap();
    dir.add_pc(john_does_pc()).unwrap();
    assert_eq!(dir.directory.len(), 2);
    assert_eq!(dir.owners.len(), 1);
    assert_eq!(dir.directory[0].owner, Some(0));
    assert_eq!(dir.directory[1].owner, dir.directory[0].owner);
}

#[test]
fn test_entry_ids_follow_insertion_order() {
    let mut dir = PcDirectory::default();
    dir.add_pc(john_does_pc()).unwrap();
    dir.add_pc(maria_dingong_pc()).unwrap();
    dir.add_pc(PcBuilder::default()).unwrap();
    assert_eq!(dir.directory[0].id(), 0);
    assert_eq!(dir.directory[1].id(), 1);
    assert_eq!(dir.directory[2].id(), 2);
}

#[test]
fn test_defaults_fill_missing_hardware_and_os() {
    let mut dir = PcDirectory::default();
    dir.add_pc(PcBuilder::default()).unwrap();
    let pc = &dir.directory[0];
    assert!(pc.owner.is_none());
    assert_eq!(pc.hardware.ram.bytes, 32 * GIBIBYTE);
    assert_eq!(pc.hardware.flags, vec![CpuFlag::MMX, CpuFlag::SSE, CpuFlag::SEV]);
    assert_eq!(pc.state.os, OperatingSystem::Linux { major: 5, minor: 5 });
    assert!(pc.state.mailbox.is_empty());
    assert!(matches!(pc.state.maintenance, OperationalState::On));
}

#[test]
fn test_send_email_rejects_invalid_address() {
    let mut dir = PcDirectory::default();
    dir.add_pc(john_does_pc()).unwrap();
    assert!(matches!(
        dir.send_email("not an address", "hi"),
        Err(PcDirectoryError::InvalidEMailAddress)
    ));
    assert!(dir.directory[0].state.mailbox.is_empty());
}

#[test]
fn test_delivery_lands_in_first_powered_on_pc() {
    let mut dir = PcDirectory::default();
    dir.add_pc(john_does_pc()).unwrap();
    dir.add_pc(john_does_pc()).unwrap();

    // Both machines are on: insertion order decides.
    dir.send_email("john@doe.com", "first").unwrap();
    assert_eq!(dir.directory[0].state.mailbox, vec!["first".to_string()]);
    assert!(dir.directory[1].state.mailbox.is_empty());

    // With the first machine under maintenance, the second one gets it.
    let handle = dir.directory[0].acquire_maintenance_lock("dusting").unwrap();
    dir.send_email("john@doe.com", "second").unwrap();
    assert_eq!(dir.directory[1].state.mailbox, vec!["second".to_string()]);

    // With both machines out of service, nothing is delivered.
    let handle1 = dir.directory[1].acquire_maintenance_lock("dusting too").unwrap();
    assert!(matches!(
        dir.send_email("john@doe.com", "third"),
        Err(PcDirectoryError::Unavailable)
    ));
    assert_eq!(dir.directory[0].state.mailbox.len(), 1);
    assert_eq!(dir.directory[1].state.mailbox.len(), 1);

    // After release, delivery works again.
    handle.release(&mut dir.directory[0]);
    handle1.release(&mut dir.directory[1]);
    dir.send_email("john@doe.com", "fourth").unwrap();
    assert_eq!(
        dir.directory[0].state.mailbox,
        vec!["first".to_string(), "fourth".to_string()]
    );
}

#[test]
fn test_no_delivery_to_powered_off_pc() {
    let mut dir = PcDirectory::default();
    dir.add_pc(john_does_pc()).unwrap();
    dir.directory[0].state.maintenance = OperationalState::Off;
    assert!(matches!(
        dir.send_email("john@doe.com", "anyone there?"),
        Err(PcDirectoryError::Unavailable)
    ));
    assert!(dir.directory[0].state.mailbox.is_empty());
}

#[test]
fn test_lock_on_powered_off_pc_fails() {
    let mut dir = PcDirectory::default();
    dir.add_pc(john_does_pc()).unwrap();
    dir.directory[0].state.maintenance = OperationalState::Off;
    assert!(matches!(
        dir.directory[0].acquire_maintenance_lock("any reason"),
        Err(PcDirectoryError::Unavailable)
    ));
    assert!(matches!(
        dir.directory[0].acquire_maintenance_lock("another reason"),
        Err(PcDirectoryError::Unavailable)
    ));
}

#[test]
fn test_second_lock_reports_original_reason() {
    let mut dir = PcDirectory::default();
    dir.add_pc(john_does_pc()).unwrap();
    let _handle = dir.directory[0].acquire_maintenance_lock("disk swap").unwrap();
    match dir.directory[0].acquire_maintenance_lock("ram swap") {
        Err(PcDirectoryError::InMaintenance { reason }) => assert_eq!(reason, "disk swap"),
        other => panic!("expected the in-maintenance error, got {other:?}"),
    }
}

#[test]
fn test_update_os_survives_release() {
    let mut dir = PcDirectory::default();
    dir.add_pc(john_does_pc()).unwrap();
    let handle = dir.directory[0].acquire_maintenance_lock("upgrade").unwrap();
    handle.update_os(&mut dir.directory[0], OperatingSystem::Windows11);
    handle.release(&mut dir.directory[0]);
    assert_eq!(dir.directory[0].state.os, OperatingSystem::Windows11);
    assert!(matches!(dir.directory[0].state.maintenance, OperationalState::On));
}

#[test]
fn test_os_taxonomy() {
    assert!(OperatingSystem::WindowsXp.is_crappy());
    assert!(OperatingSystem::WindowsVista.is_crappy());
    assert!(!OperatingSystem::Windows7.is_crappy());
    assert!(!OperatingSystem::Windows11.is_crappy());
    assert!(OperatingSystem::Linux { major: 4, minor: 20 }.is_crappy());
    assert!(!OperatingSystem::Linux { major: 5, minor: 5 }.is_crappy());
    assert!(!OperatingSystem::MacOs { major: 10, minor: 14 }.is_crappy());

    assert!(OperatingSystem::WindowsXp.is_windows());
    assert!(OperatingSystem::WindowsVista.is_windows());
    assert!(OperatingSystem::Windows7.is_windows());
    assert!(OperatingSystem::Windows11.is_windows());
    assert!(!OperatingSystem::MacOs { major: 10, minor: 14 }.is_windows());
    assert!(!OperatingSystem::Linux { major: 6, minor: 1 }.is_windows());
}

#[test]
fn test_hardware_profiles() {
    let nerd = PcHardware::nerd_workstation();
    assert_eq!(nerd.flags, vec![CpuFlag::MMX, CpuFlag::SSE, CpuFlag::SEV, CpuFlag::AVX]);
    assert_eq!(nerd.ram.bytes, 64 * GIBIBYTE);

    let beefy = PcHardware::beefy_workstation();
    assert_eq!(beefy.flags, vec![CpuFlag::MMX, CpuFlag::SSE, CpuFlag::SEV]);
    assert_eq!(beefy.ram.bytes, 32 * GIBIBYTE);

    let normal = PcHardware::normal();
    assert_eq!(normal.flags, vec![CpuFlag::MMX, CpuFlag::SSE]);
    assert_eq!(normal.ram.bytes, 16 * GIBIBYTE);
}
