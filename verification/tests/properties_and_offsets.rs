use aster_drm::error::DrmError;
use aster_drm::object_type::DrmKmsObjectType;
use aster_drm::property::{str_eq, str_to_u8, DrmKmsObjectProp, DrmProperty, DrmPropertyEnum, DrmPropertyFlags, DrmPropertyKind};
use aster_drm::vma_manager::{pages_from_size, DrmVmaOffsetManager, DrmVmaOffsetNode};

#[test]
fn property_table_attaches_and_replaces() {
    let mut t = DrmKmsObjectProp::default();
    assert_eq!(t.len(), 0);
    t.add_property(3, 10);
    t.add_property(5, 20);
    t.add_property(3, 30);
    assert_eq!(t.len(), 2);
    let mut entries = t.entries();
    entries.sort();
    assert_eq!(entries, vec![(3, 30), (5, 20)]);
    let mut ids = t.ids();
    ids.sort();
    assert_eq!(ids, vec![3, 5]);
    let mut values = t.values();
    values.sort();
    assert_eq!(values, vec![20, 30]);
}

#[test]
fn property_names() {
    let buf = str_to_u8("FB_ID");
    assert_eq!(&buf[..6], b"FB_ID\0");
    assert!(str_eq("CRTC_ID", "CRTC_ID"));
    assert!(!str_eq("CRTC_ID", "CRTC_X"));
    let long = str_to_u8("0123456789012345678901234567890123456789");
    assert_eq!(&long[..31], b"0123456789012345678901234567890");
    assert_eq!(long[31], 0);
}

#[test]
fn property_kinds() {
    let p = DrmProperty::create_range("alpha", DrmPropertyFlags::empty(), 0, 255);
    assert_eq!(p.name(), "alpha");
    assert!(p.flags().contains(DrmPropertyFlags::RANGE()));
    assert!(matches!(p.kind(), DrmPropertyKind::Range { min: 0, max: 255 }));
    let o = DrmProperty::create_object("CRTC_ID", DrmPropertyFlags::ATOMIC(), DrmKmsObjectType::Crtc);
    assert!(o.flags().contains(DrmPropertyFlags::OBJECT()));
    assert!(o.flags().contains(DrmPropertyFlags::ATOMIC()));
    assert!(matches!(o.kind(), DrmPropertyKind::Object(DrmKmsObjectType::Crtc)));
    let e = DrmProperty::create_enum("type", DrmPropertyFlags::IMMUTABLE(), vec![DrmPropertyEnum::new(1, "Primary")]);
    assert!(e.flags().contains(DrmPropertyFlags::ENUM()));
    let b = DrmProperty::create_blob("MODE_ID", DrmPropertyFlags::empty());
    assert!(b.flags().contains(DrmPropertyFlags::BLOB()));
    assert_eq!(&b.name_to_u8()[..8], b"MODE_ID\0");
}

#[test]
fn pages_of_sizes() {
    assert_eq!(pages_from_size(1), Ok(1));
    assert_eq!(pages_from_size(4096), Ok(1));
    assert_eq!(pages_from_size(4097), Ok(2));
    assert_eq!(pages_from_size(0), Err(DrmError::Invalid));
    assert_eq!(pages_from_size(usize::MAX), Err(DrmError::NoMemory));
}

#[test]
fn offsets_added_looked_up_and_removed() {
    let mut m = DrmVmaOffsetManager::with_range(16, 10);
    let mut a = DrmVmaOffsetNode::new();
    let mut b = DrmVmaOffsetNode::new();
    assert_eq!(m.add(100, 8192, &mut a), Ok(()));
    assert_eq!((a.start_page(), a.size_pages()), (16, 2));
    assert_eq!(a.offset_addr(), 16 * 4096);
    assert_eq!(m.add(200, 4096 * 3, &mut b), Ok(()));
    assert_eq!(b.start_page(), 18);
    assert_eq!(m.lookup(16, 2), Some(100));
    assert_eq!(m.lookup(17, 1), Some(100));
    assert_eq!(m.lookup(17, 2), None);
    assert_eq!(m.exact_lookup(18, 3), Some(200));
    assert_eq!(m.exact_lookup(19, 1), None);
    assert_eq!(m.allocation_at(18), Some((200, 3)));
    assert_eq!(m.allocation_at(19), None);
    assert!(m.key_in_use(200));
    assert!(!m.key_in_use(300));
    // an empty range finds nothing
    assert_eq!(m.lookup(16, 0), None);
    // a node that has pages keeps them
    assert_eq!(m.add(100, 4096, &mut a), Ok(()));
    assert_eq!(a.start_page(), 16);
    m.remove(&mut a);
    assert!(!a.is_allocated());
    assert_eq!(m.lookup(16, 1), None);
    assert!(!m.key_in_use(100));
    let mut c = DrmVmaOffsetNode::new();
    assert_eq!(m.add(300, 4096 * 6, &mut c), Err(DrmError::NoMemory));
    assert_eq!(m.add(300, 0, &mut c), Err(DrmError::Invalid));
    assert_eq!(m.add(300, 4096 * 5, &mut c), Ok(()));
    assert_eq!(c.start_page(), 21);
}

#[test]
fn best_fit_reuses_freed_gap() {
    let mut m = DrmVmaOffsetManager::with_range(0, 100);
    let mut a = DrmVmaOffsetNode::new();
    let mut b = DrmVmaOffsetNode::new();
    let mut c = DrmVmaOffsetNode::new();
    assert_eq!(m.add(1, 4096 * 3, &mut a), Ok(()));
    assert_eq!(m.add(2, 4096, &mut b), Ok(()));
    m.remove(&mut a);
    assert_eq!(m.add(3, 4096 * 2, &mut c), Ok(()));
    assert_eq!(c.start_page(), 0);
}

#[test]
fn node_access_counts() {
    let mut n = DrmVmaOffsetNode::new();
    assert!(!n.is_allowed(7));
    assert_eq!(n.allow(7), Ok(()));
    assert_eq!(n.allow(7), Ok(()));
    n.revoke(7);
    assert!(n.is_allowed(7));
    n.revoke(7);
    assert!(!n.is_allowed(7));
    assert_eq!(n.allow_once(8), Ok(()));
    assert_eq!(n.allow_once(8), Ok(()));
    n.revoke(8);
    assert!(!n.is_allowed(8));
    n.revoke(9);
    assert_eq!(n.offset_addr(), 0);
}

#[test]
fn crtc_setters_are_independent() {
    let mut crtc = aster_drm::crtc::DrmCrtc::new(0, 1, None, DrmKmsObjectProp::default());
    let s = crtc.snapshot();
    assert_eq!((s.active(), s.enable(), s.display_mode().is_none()), (false, false, true));
    crtc.set_active(true);
    let s = crtc.snapshot();
    assert_eq!((s.active(), s.enable(), s.display_mode().is_none()), (true, false, true));
}
