use umsbb::envelope::{LanguageType, UniversalData};
use umsbb::error::UMSBBError;
use umsbb::registry::{BufferHandle, BufferRegistry};

fn env(bytes: &[u8]) -> UniversalData {
    UniversalData::new(bytes.to_vec(), 9, LanguageType::Go)
}

#[test]
fn handles_work_until_destroyed() {
    let mut reg = BufferRegistry::new();
    let h = reg.create(1024, 2, 1).unwrap();
    assert_eq!(h, BufferHandle { index: 0, generation: 0 });
    reg.write(h, env(b"one")).unwrap();
    reg.write(h, env(b"two")).unwrap();
    assert_eq!(reg.stats(h).unwrap().pending_messages, 2);
    let e = reg.read(h).unwrap().unwrap();
    assert_eq!(e.data, b"one".to_vec());
    assert_eq!(e.type_id, 9);
    assert_eq!(reg.destroy(h), Ok(1));
}

#[test]
fn destroyed_handle_is_refused_everywhere() {
    let mut reg = BufferRegistry::new();
    let h = reg.create(1024, 1, 1).unwrap();
    assert_eq!(reg.destroy(h), Ok(0));
    assert_eq!(reg.write(h, env(b"x")), Err(UMSBBError::InvalidHandle));
    assert_eq!(reg.read(h).err(), Some(UMSBBError::InvalidHandle));
    assert_eq!(reg.stats(h).err(), Some(UMSBBError::InvalidHandle));
    assert_eq!(reg.destroy(h), Err(UMSBBError::InvalidHandle));
}

#[test]
fn reused_slot_does_not_revive_old_handle() {
    let mut reg = BufferRegistry::new();
    let old = reg.create(1024, 1, 1).unwrap();
    let other = reg.create(2048, 1, 1).unwrap();
    assert_eq!(other.index, 1);
    reg.destroy(old).unwrap();
    let fresh = reg.create(1024, 1, 1).unwrap();
    assert_eq!(fresh, BufferHandle { index: 0, generation: 1 });
    assert_eq!(reg.write(old, env(b"stale")), Err(UMSBBError::InvalidHandle));
    assert_eq!(reg.write(fresh, env(b"new")), Ok(()));
    assert_eq!(reg.stats(fresh).unwrap().pending_messages, 1);
    assert_eq!(reg.stats(other).unwrap().pending_messages, 0);
}

#[test]
fn unknown_handle_and_bad_parameters() {
    let mut reg = BufferRegistry::new();
    assert_eq!(reg.read(BufferHandle { index: 3, generation: 0 }).err(), Some(UMSBBError::InvalidHandle));
    assert_eq!(reg.create(0, 1, 1), Err(UMSBBError::InvalidParams));
    assert_eq!(reg.create(1024, 65, 1), Err(UMSBBError::InvalidParams));
}
