//! Sites, their invalidation, and their report.

use std::cell::RefCell;

use perry::heap::{Heap, HeapBody, HeapObject, ObjectBody, GC_TYPE_ARRAY, GC_TYPE_OBJECT};
use perry::invalidation::{
    invalidate_method_change, invalidate_representation_change, invalidate_shape_change,
    scan_typed_feedback_roots_mut,
};
use perry::kinds::{TypedFeedbackSiteKind, TypedFeedbackState};
use perry::observation::{shape_keyed_object_addr, Observation, ObservationSource};
use perry::registry::{
    guard_observe, js_typed_feedback_record_fallback_call, js_typed_feedback_record_guard_fail,
    js_typed_feedback_record_guard_pass, js_typed_feedback_register_site, observe, site_entry,
    TypedFeedbackRegistry,
};
use perry::snapshot::{typed_feedback_snapshot, GuardCounterSnapshot, TypedFeedbackSnapshot};
use perry::trace::{snapshot_trace_json, typed_feedback_trace_json};
use perry::visitor::RootVisitor;

fn blank(source: ObservationSource) -> Observation {
    Observation {
        source,
        object_addr: 0,
        shape_addr: 0,
        key_hash: 0,
        class_id: 0,
        heap_type: 0,
        aux: 0,
        value_tag: 0,
    }
}

fn register(reg: &mut TypedFeedbackRegistry, id: u64, kind: u32, guard: &[u8]) {
    js_typed_feedback_register_site(
        reg,
        id,
        kind,
        Some(b"m"),
        Some(b"f"),
        Some(b"s"),
        Some(b"o"),
        Some(guard),
        Some(b"fb"),
    );
}

const PROPERTY: TypedFeedbackSiteKind = TypedFeedbackSiteKind::PropertyGet;

#[test]
fn site_kinds_have_numbers_and_names() {
    let names = [
        "property_get",
        "property_set",
        "method_call",
        "closure_call",
        "array_element",
        "numeric_field_write",
        "helper_return",
    ];
    for (raw, name) in names.iter().enumerate() {
        assert_eq!(TypedFeedbackSiteKind::from_raw(raw as u32).as_str(), *name);
    }
    assert_eq!(TypedFeedbackSiteKind::from_raw(7), PROPERTY);
    assert_eq!(TypedFeedbackSiteKind::from_raw(u32::MAX), PROPERTY);
    assert_eq!(TypedFeedbackState::Uninitialized.as_str(), "uninitialized");
    assert_eq!(TypedFeedbackState::Monomorphic.as_str(), "monomorphic");
    assert_eq!(TypedFeedbackState::Polymorphic.as_str(), "polymorphic");
    assert_eq!(TypedFeedbackState::Megamorphic.as_str(), "megamorphic");
}

#[test]
fn keys_compare_what_matters_to_their_source() {
    let sources = [
        ObservationSource::Property,
        ObservationSource::Method,
        ObservationSource::Closure,
        ObservationSource::Array,
        ObservationSource::NumericWrite,
        ObservationSource::HelperReturn,
    ];
    for source in sources {
        let base = blank(source);
        let property = matches!(source, ObservationSource::Property | ObservationSource::Method);
        let closure = source == ObservationSource::Closure;
        let same = |o: Observation| base.same_feedback_key(&o);
        assert!(same(Observation { object_addr: 1, ..base }));
        assert_eq!(same(Observation { shape_addr: 1, ..base }), closure);
        assert_eq!(same(Observation { key_hash: 1, ..base }), !property);
        assert_eq!(same(Observation { class_id: 1, ..base }), closure);
        assert!(!same(Observation { heap_type: 1, ..base }));
        assert_eq!(same(Observation { aux: 1, ..base }), property);
        assert!(!same(Observation { value_tag: 1, ..base }));
        for other in sources {
            assert_eq!(base.same_feedback_key(&blank(other)), source == other);
        }
    }
}

#[test]
fn objects_are_named_only_where_their_shape_is_not() {
    assert_eq!(shape_keyed_object_addr(ObservationSource::Property, 7), 0);
    assert_eq!(shape_keyed_object_addr(ObservationSource::Method, 7), 0);
    assert_eq!(shape_keyed_object_addr(ObservationSource::NumericWrite, 7), 0);
    assert_eq!(shape_keyed_object_addr(ObservationSource::Closure, 7), 7);
    assert_eq!(shape_keyed_object_addr(ObservationSource::Array, 7), 7);
    assert_eq!(shape_keyed_object_addr(ObservationSource::HelperReturn, 7), 7);
}

#[test]
fn number_zero_records_nothing() {
    let mut reg = TypedFeedbackRegistry::new();
    register(&mut reg, 0, 1, b"g");
    observe(&mut reg, 0, PROPERTY, blank(ObservationSource::Property));
    assert!(guard_observe(&mut reg, 0, PROPERTY, blank(ObservationSource::Property), true));
    assert!(!guard_observe(&mut reg, 0, PROPERTY, blank(ObservationSource::Property), false));
    js_typed_feedback_record_guard_pass(&mut reg, 0);
    assert_eq!(typed_feedback_snapshot(&reg).total_sites, 0);
}

#[test]
fn counting_at_an_unknown_site_makes_none() {
    let mut reg = TypedFeedbackRegistry::new();
    js_typed_feedback_record_guard_pass(&mut reg, 5);
    js_typed_feedback_record_guard_fail(&mut reg, 5);
    js_typed_feedback_record_fallback_call(&mut reg, 5);
    assert!(reg.site(5).is_none());
    observe(&mut reg, 5, TypedFeedbackSiteKind::MethodCall, blank(ObservationSource::Method));
    let site = reg.site(5).unwrap();
    assert_eq!(site.metadata.kind, TypedFeedbackSiteKind::MethodCall);
    assert_eq!(site.metadata.guard_name, "");
}

#[test]
fn registering_again_renames_and_keeps() {
    let mut reg = TypedFeedbackRegistry::new();
    register(&mut reg, 9, 0, b"old");
    observe(&mut reg, 9, PROPERTY, blank(ObservationSource::Property));
    js_typed_feedback_record_guard_pass(&mut reg, 9);
    register(&mut reg, 9, 2, b"new");
    let site = reg.site(9).unwrap();
    assert_eq!(site.metadata.kind, TypedFeedbackSiteKind::MethodCall);
    assert_eq!(site.metadata.guard_name, "new");
    assert_eq!(site.observed_count, 1);
    assert_eq!(site.observations.len(), 1);
    assert_eq!(site.guard_passes, 1);
}

#[test]
fn guards_pass_on_what_is_known() {
    let mut reg = TypedFeedbackRegistry::new();
    let a = blank(ObservationSource::Property);
    let b = Observation { key_hash: 1, ..a };
    // The first observation of a site passes on its contract alone.
    assert!(guard_observe(&mut reg, 1, PROPERTY, a, true));
    assert!(guard_observe(&mut reg, 1, PROPERTY, a, true));
    assert!(!guard_observe(&mut reg, 1, PROPERTY, a, false));
    // A new observation fails once, and is known from then on.
    assert!(!guard_observe(&mut reg, 1, PROPERTY, b, true));
    assert!(guard_observe(&mut reg, 1, PROPERTY, b, true));
    let site = reg.site(1).unwrap();
    assert_eq!(site.guard_passes, 3);
    assert_eq!(site.guard_failures, 2);
    assert_eq!(site.state(), TypedFeedbackState::Polymorphic);
}

#[test]
fn megamorphic_sites_pass_nothing_and_learn_nothing() {
    let mut reg = TypedFeedbackRegistry::new();
    let o = |n| Observation { key_hash: n, ..blank(ObservationSource::Property) };
    for n in 0..6 {
        observe(&mut reg, 1, PROPERTY, o(n));
    }
    assert_eq!(reg.site(1).unwrap().state(), TypedFeedbackState::Megamorphic);
    assert_eq!(reg.site(1).unwrap().observations.len(), 4);
    assert!(!guard_observe(&mut reg, 1, PROPERTY, o(0), true));
    assert_eq!(reg.site(1).unwrap().guard_failures, 1);
    assert_eq!(reg.site(1).unwrap().observed_count, 7);
}

#[test]
fn counters_stop_at_their_end() {
    let mut reg = TypedFeedbackRegistry::new();
    site_entry(&mut reg, 1, PROPERTY).guard_passes = u64::MAX;
    site_entry(&mut reg, 2, PROPERTY).guard_passes = 5;
    js_typed_feedback_record_guard_pass(&mut reg, 1);
    let snapshot = typed_feedback_snapshot(&reg);
    assert_eq!(snapshot.sites[0].guard_passes, u64::MAX);
    assert_eq!(snapshot.guard_passes, u64::MAX);
    assert_eq!(snapshot.guards_by_name.get("").unwrap().passes, u64::MAX);
}

fn object_at(heap: &mut Heap, addr: u64, class_id: u32, shape: u64) {
    heap.objects.insert(
        addr,
        HeapObject {
            forwarded: false,
            frozen: false,
            body: HeapBody::Object(ObjectBody {
                regular: true,
                class_id,
                field_count: 0,
                keys_array: shape,
                raw_f64_slots: Vec::new(),
            }),
        },
    );
}

#[test]
fn shape_changes_count_where_either_shape_was_seen() {
    let mut reg = TypedFeedbackRegistry::new();
    let mut heap = Heap::new(0);
    object_at(&mut heap, 0x20000, 7, 0x50);
    let seen = |shape, class_id| Observation {
        shape_addr: shape,
        class_id,
        ..blank(ObservationSource::Property)
    };
    observe(&mut reg, 1, PROPERTY, seen(0x40, 7));
    observe(&mut reg, 2, PROPERTY, seen(0x50, 7));
    observe(&mut reg, 3, PROPERTY, seen(0x60, 7));
    observe(&mut reg, 4, PROPERTY, seen(0, 7));
    observe(&mut reg, 5, PROPERTY, seen(0, 8));
    let element = Observation { shape_addr: 0x40, ..blank(ObservationSource::Array) };
    observe(&mut reg, 6, TypedFeedbackSiteKind::ArrayElement, element);

    invalidate_shape_change(&mut reg, &heap, 0x20000, 0x40, 0x40);
    assert_eq!(typed_feedback_snapshot(&reg).shape_invalidations, 0);
    invalidate_shape_change(&mut reg, &heap, 0x20000, 0x40, 0x50);
    let counts = |reg: &TypedFeedbackRegistry| -> Vec<u64> {
        typed_feedback_snapshot(reg).sites.iter().map(|s| s.shape_invalidations).collect()
    };
    assert_eq!(counts(&reg), vec![1, 1, 0, 0, 0, 0]);
    // From no shape at all: sites without a shape whose class may be the same.
    invalidate_shape_change(&mut reg, &heap, 0x20000, 0, 0x60);
    assert_eq!(counts(&reg), vec![1, 1, 1, 1, 0, 0]);
    assert_eq!(typed_feedback_snapshot(&reg).shape_invalidations, 2);
}

#[test]
fn method_changes_count_at_method_calls_alone() {
    let mut reg = TypedFeedbackRegistry::new();
    let seen = |class_id| Observation { class_id, ..blank(ObservationSource::Method) };
    observe(&mut reg, 1, TypedFeedbackSiteKind::MethodCall, seen(7));
    observe(&mut reg, 2, TypedFeedbackSiteKind::MethodCall, seen(8));
    observe(&mut reg, 3, PROPERTY, seen(7));
    register(&mut reg, 4, 2, b"g");
    let counts = |reg: &TypedFeedbackRegistry| -> Vec<u64> {
        typed_feedback_snapshot(reg).sites.iter().map(|s| s.method_invalidations).collect()
    };
    invalidate_method_change(&mut reg, 7);
    assert_eq!(counts(&reg), vec![1, 0, 0, 0]);
    // Class zero stands for any class.
    invalidate_method_change(&mut reg, 0);
    assert_eq!(counts(&reg), vec![2, 1, 0, 0]);
    assert_eq!(typed_feedback_snapshot(&reg).method_invalidations, 2);
}

#[test]
fn representation_changes_count_by_shape_and_by_element() {
    let mut reg = TypedFeedbackRegistry::new();
    let mut heap = Heap::new(0);
    object_at(&mut heap, 0x20000, 7, 0x50);
    heap.objects.insert(
        0x30000,
        HeapObject {
            forwarded: false,
            frozen: false,
            body: HeapBody::Array(perry::heap::ArrayBody {
                length: 0,
                capacity: 0,
                elements: Vec::new(),
                numeric_f64_layout: true,
                pointer_slots: None,
            }),
        },
    );
    let property = Observation {
        shape_addr: 0x50,
        class_id: 7,
        heap_type: GC_TYPE_OBJECT,
        ..blank(ObservationSource::Property)
    };
    let element = Observation { heap_type: GC_TYPE_ARRAY, ..blank(ObservationSource::Array) };
    observe(&mut reg, 1, PROPERTY, property);
    observe(&mut reg, 2, TypedFeedbackSiteKind::ArrayElement, element);
    let counts = |reg: &TypedFeedbackRegistry| -> Vec<u64> {
        typed_feedback_snapshot(reg)
            .sites
            .iter()
            .map(|s| s.representation_invalidations)
            .collect()
    };
    invalidate_representation_change(&mut reg, &heap, 0);
    assert_eq!(typed_feedback_snapshot(&reg).representation_invalidations, 0);
    invalidate_representation_change(&mut reg, &heap, 0x20000);
    assert_eq!(counts(&reg), vec![1, 0]);
    invalidate_representation_change(&mut reg, &heap, 0x30000);
    assert_eq!(counts(&reg), vec![1, 1]);
    assert_eq!(typed_feedback_snapshot(&reg).representation_invalidations, 2);
}

#[test]
fn the_collector_moves_the_shapes_that_sites_keep() {
    let mut reg = TypedFeedbackRegistry::new();
    let property = Observation { shape_addr: 0x50, ..blank(ObservationSource::Property) };
    let element = Observation { shape_addr: 0x50, ..blank(ObservationSource::Array) };
    let shapeless = Observation { key_hash: 1, ..blank(ObservationSource::Property) };
    let returned = Observation {
        shape_addr: 0x50,
        heap_type: GC_TYPE_OBJECT,
        ..blank(ObservationSource::HelperReturn)
    };
    observe(&mut reg, 1, PROPERTY, property);
    observe(&mut reg, 1, PROPERTY, shapeless);
    observe(&mut reg, 2, TypedFeedbackSiteKind::ArrayElement, element);
    observe(&mut reg, 3, TypedFeedbackSiteKind::HelperReturn, returned);
    let shapes = |reg: &TypedFeedbackRegistry| -> Vec<u64> {
        (1..4)
            .flat_map(|id| reg.site(id).unwrap().observations.iter().map(|o| o.shape_addr))
            .collect()
    };
    scan_typed_feedback_roots_mut(&mut reg, &mut RootVisitor::new(|addr: u64| addr));
    assert_eq!(shapes(&reg), vec![0x50, 0, 0x50, 0x50]);
    let shown = RefCell::new(Vec::new());
    let mut visitor = RootVisitor::new(|addr: u64| {
        shown.borrow_mut().push(addr);
        addr + 0x1000
    });
    scan_typed_feedback_roots_mut(&mut reg, &mut visitor);
    // The receivers are not shown, nor is the shape of an element.
    assert_eq!(*shown.borrow(), vec![0x50, 0x50]);
    assert_eq!(shapes(&reg), vec![0x1050, 0, 0x50, 0x1050]);
}

#[test]
fn reports_list_sites_in_order_and_sum_their_guards() {
    let mut reg = TypedFeedbackRegistry::new();
    for (id, kind, guard) in [(30, 2, "g2"), (10, 0, "g1"), (20, 2, "g2"), (5, 6, "g1")] {
        register(&mut reg, id, kind, guard.as_bytes());
    }
    js_typed_feedback_record_guard_pass(&mut reg, 30);
    js_typed_feedback_record_guard_pass(&mut reg, 20);
    js_typed_feedback_record_guard_fail(&mut reg, 20);
    js_typed_feedback_record_fallback_call(&mut reg, 10);
    observe(&mut reg, 10, PROPERTY, blank(ObservationSource::Property));

    let snapshot = typed_feedback_snapshot(&reg);
    let ids: Vec<u64> = snapshot.sites.iter().map(|s| s.site_id).collect();
    assert_eq!(ids, vec![5, 10, 20, 30]);
    assert_eq!(snapshot.total_sites, 4);
    assert_eq!(snapshot.by_kind.len(), 3);
    assert_eq!(snapshot.by_kind.get("method_call"), Some(&2));
    assert_eq!(snapshot.by_kind.get("closure_call"), None);
    assert_eq!(snapshot.by_state.get("monomorphic"), Some(&1));
    assert_eq!(snapshot.by_state.get("uninitialized"), Some(&3));
    assert_eq!(
        (snapshot.guard_passes, snapshot.guard_failures, snapshot.fallback_calls),
        (2, 1, 1)
    );
    assert_eq!(
        snapshot.guards_by_name.get("g2"),
        Some(&GuardCounterSnapshot { passes: 2, failures: 1, fallback_calls: 0 })
    );
    assert_eq!(
        snapshot.guards_by_name.get("g1"),
        Some(&GuardCounterSnapshot { passes: 0, failures: 0, fallback_calls: 1 })
    );

    let json = snapshot_trace_json(&snapshot);
    assert_eq!(json, typed_feedback_trace_json(&reg));
    assert_eq!(json["total_sites"].as_u64(), Some(4));
    assert_eq!(json["by_kind"].as_object().unwrap().len(), 3);
    assert_eq!(json["guards"]["by_guard"]["g2"]["passes"].as_u64(), Some(2));
    assert_eq!(json["sites"].as_array().unwrap().len(), 4);
    assert_eq!(json["sites"][1]["site_id"].as_u64(), Some(10));
    assert_eq!(json["sites"][1]["state"].as_str(), Some("monomorphic"));
    assert_eq!(json["sites"][1]["observation_count"].as_u64(), Some(1));
    assert_eq!(json["sites"][2]["guards"]["failures"].as_u64(), Some(1));
    assert_eq!(json["sites"][2]["invalidations"]["shape"].as_u64(), Some(0));
    assert_eq!(json["sites"][2]["module"].as_str(), Some("m"));
    assert_eq!(json["sites"][0].as_object().unwrap().len(), 16);
    assert_eq!(json["invalidations"]["method"].as_u64(), Some(0));
}

#[test]
fn records_only_grow() {
    let mut reg = TypedFeedbackRegistry::new();
    register(&mut reg, 1, 0, b"g");
    let seen = blank(ObservationSource::HelperReturn);
    let mut counts = vec![];
    for step in 0..6 {
        match step {
            0 => observe(&mut reg, 1, PROPERTY, seen),
            1 => js_typed_feedback_record_guard_pass(&mut reg, 1),
            2 => js_typed_feedback_record_guard_fail(&mut reg, 1),
            3 => js_typed_feedback_record_fallback_call(&mut reg, 1),
            4 => register(&mut reg, 1, 0, b"g"),
            _ => observe(&mut reg, 2, PROPERTY, seen),
        }
        let report = typed_feedback_snapshot(&reg);
        let row = &report.sites[0];
        counts.push((
            row.observed_count,
            row.guard_passes,
            row.guard_failures,
            row.fallback_calls,
            report.total_sites,
        ));
    }
    assert_eq!(
        counts,
        vec![
            (1, 0, 0, 0, 1),
            (1, 1, 0, 0, 1),
            (1, 1, 1, 0, 1),
            (1, 1, 1, 1, 1),
            (1, 1, 1, 1, 1),
            (1, 1, 1, 1, 2),
        ]
    );
}

#[test]
fn two_reports_of_one_registry_agree() {
    let mut reg = TypedFeedbackRegistry::new();
    register(&mut reg, 9, 4, b"late");
    register(&mut reg, 3, 0, b"early");
    observe(&mut reg, 3, PROPERTY, blank(ObservationSource::HelperReturn));
    let a = typed_feedback_snapshot(&reg);
    let b = typed_feedback_snapshot(&reg);
    assert_eq!(snapshot_trace_json(&a), snapshot_trace_json(&b));
    assert_eq!(a.sites[0].site_id, 3);
    assert_eq!(a.sites[1].site_id, 9);
}

#[test]
fn a_blank_report_holds_nothing() {
    let report = TypedFeedbackSnapshot::default();
    assert!(report.sites.is_empty());
    assert_eq!(report.total_sites, 0);
    assert_eq!(report.guard_passes, 0);
    assert_eq!(report.guard_failures, 0);
    assert_eq!(report.fallback_calls, 0);
    assert_eq!(report.by_kind.len(), 0);
    assert_eq!(report.by_state.len(), 0);
    assert_eq!(report.guards_by_name.len(), 0);
}

#[test]
fn roots_are_shown_once_each_in_the_order_of_the_sites() {
    let mut reg = TypedFeedbackRegistry::new();
    for (id, shape) in [(9, 0x90), (2, 0x20), (2, 0x21), (5, 0x20)] {
        let seen = Observation {
            object_addr: 0x7000,
            shape_addr: shape,
            ..blank(ObservationSource::Property)
        };
        observe(&mut reg, id, PROPERTY, seen);
    }
    let shown = RefCell::new(Vec::new());
    let mut visitor = RootVisitor::new(|addr: u64| {
        shown.borrow_mut().push(addr);
        0x100 + shown.borrow().len() as u64
    });
    scan_typed_feedback_roots_mut(&mut reg, &mut visitor);
    assert_eq!(*shown.borrow(), vec![0x20, 0x21, 0x20, 0x90]);
    let site = |id: u64| -> Vec<(u64, u64)> {
        let observations = &reg.site(id).unwrap().observations;
        observations.iter().map(|o| (o.object_addr, o.shape_addr)).collect()
    };
    assert_eq!(site(2), vec![(0x7000, 0x101), (0x7000, 0x102)]);
    assert_eq!(site(5), vec![(0x7000, 0x103)]);
    assert_eq!(site(9), vec![(0x7000, 0x104)]);
}

#[test]
fn a_visited_slot_holds_the_new_address() {
    let mut visitor = RootVisitor::new(|addr: u64| addr * 2);
    let mut slot = 21;
    visitor.visit_usize_slot(&mut slot);
    assert_eq!(slot, 42);
}

#[test]
fn rows_tell_their_states_from_their_counts() {
    let mut reg = TypedFeedbackRegistry::new();
    register(&mut reg, 1, 0, b"g");
    let mut rows = vec![];
    for shape in 0..6u64 {
        let report = typed_feedback_snapshot(&reg);
        let row = &report.sites[0];
        rows.push((row.state, row.observation_count, row.observed_count));
        let seen =
            Observation { shape_addr: 0x40 + shape, ..blank(ObservationSource::Property) };
        observe(&mut reg, 1, PROPERTY, seen);
    }
    assert_eq!(
        rows,
        vec![
            ("uninitialized", 0, 0),
            ("monomorphic", 1, 1),
            ("polymorphic", 2, 2),
            ("polymorphic", 3, 3),
            ("polymorphic", 4, 4),
            ("megamorphic", 4, 5),
        ]
    );
}
