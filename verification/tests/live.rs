use std::cell::RefCell;
use std::rc::Rc;

use openusd::sdf::Value;
use openusd::usd::{CommittedChange, Stage};
use usd_bevy::live::{
    apply_changes, author_transform, insert_spawned, prim_of, reconcile, ChangeQueue,
    PrimEntities, StageChange, SyncPlan,
};

/// An authored stage whose edits land on a queue.
struct Live {
    stage: Stage,
    queue: Rc<RefCell<ChangeQueue>>,
}

impl Live {
    fn new(stage: Stage) -> Self {
        let queue = Rc::new(RefCell::new(ChangeQueue::new()));
        let sink = queue.clone();
        stage.add_sink(move |_stage: &Stage, change: &CommittedChange<'_>| {
            sink.borrow_mut().record(StageChange {
                resynced: change.resynced.iter().map(|p| p.as_str().to_string()).collect(),
                changed_info: change
                    .changed_info_only
                    .iter()
                    .map(|p| p.as_str().to_string())
                    .collect(),
            });
        });
        Self { stage, queue }
    }

    fn drain(&self) -> Vec<StageChange> {
        self.queue.borrow_mut().drain_changes()
    }

    fn has_changes(&self) -> bool {
        self.queue.borrow().has_changes()
    }
}

/// Applies the plan of one reconciliation, spawning entities from `next`.
fn sync(map: &mut PrimEntities, current: &[&str], next: &mut u64) {
    let current: Vec<String> = current.iter().map(|p| p.to_string()).collect();
    let plan = reconcile(map, &current);
    let spawned: Vec<(String, u64)> = plan
        .spawned
        .iter()
        .map(|p| {
            *next += 1;
            (p.clone(), *next)
        })
        .collect();
    insert_spawned(map, &spawned);
}

#[test]
fn sink_records_authored_edits() {
    let stage = Stage::builder().in_memory("live_test.usda").expect("in-memory stage");
    stage.define_prim("/Foo").expect("define").set_type_name("Xform").expect("type");

    let live = Live::new(stage);
    assert!(!live.has_changes(), "no changes before any edit");

    live.stage
        .create_attribute("/Foo.size", "double")
        .expect("create attr")
        .set(Value::Double(2.0))
        .expect("set value");

    let changes = live.drain();
    assert!(!changes.is_empty(), "the edit should have recorded a change");
    let mentioned: Vec<String> = changes.iter().flat_map(|c| c.paths()).collect();
    assert!(
        mentioned.iter().any(|p| p.starts_with("/Foo")),
        "change should mention /Foo, got {mentioned:?}"
    );
    assert!(live.drain().is_empty(), "queue is empty after drain");
}

#[test]
fn define_and_remove_resync() {
    let stage = Stage::builder().in_memory("resync.usda").unwrap();
    let live = Live::new(stage);

    live.stage.define_prim("/World").unwrap();
    live.stage.define_prim("/World/Child").unwrap();
    let after_define = live.drain();
    let resynced: Vec<String> = after_define.iter().flat_map(|c| c.resynced.clone()).collect();
    assert!(
        resynced.iter().any(|p| p.starts_with("/World")),
        "defining prims should resync /World, got resynced={resynced:?}"
    );

    live.stage.remove_prim("/World/Child").unwrap();
    let after_remove = live.drain();
    assert!(!after_remove.is_empty(), "removing a prim should record a change");
}

#[test]
fn edit_reprojects_transform() {
    let stage = Stage::builder().in_memory("e2e.usda").unwrap();
    stage.define_prim("/Foo").unwrap().set_type_name("Xform").unwrap();
    stage
        .create_attribute("/Foo.xformOp:translate", "double3")
        .unwrap()
        .set(Value::Vec3d(openusd::gf::Vec3d::from([1.0, 0.0, 0.0])))
        .unwrap();
    stage
        .create_attribute("/Foo.xformOpOrder", "token[]")
        .unwrap()
        .set(Value::TokenVec(vec!["xformOp:translate".into()]))
        .unwrap();

    let live = Live::new(stage);
    let mut map = PrimEntities::new();
    let mut next = 0;
    sync(&mut map, &["/Foo"], &mut next);
    let foo = map.entity("/Foo").expect("/Foo projected");

    live.stage
        .attribute("/Foo.xformOp:translate")
        .set(Value::Vec3d(openusd::gf::Vec3d::from([2.0, 5.0, 0.0])))
        .unwrap();
    assert!(live.has_changes(), "the edit fired the sink");
    match apply_changes(&live.drain(), &map) {
        SyncPlan::Patch(list) => {
            assert!(list.iter().all(|(path, entity)| path == "/Foo" && *entity == foo));
            assert!(!list.is_empty(), "sync reprojected the edited prim");
        }
        other => panic!("expected a patch, got {other:?}"),
    }
    assert!(matches!(apply_changes(&live.drain(), &map), SyncPlan::Nothing));
}

#[test]
fn resync_spawns_and_despawns_entities() {
    let stage = Stage::builder().in_memory("rs.usda").unwrap();
    stage.define_prim("/World").unwrap();
    let live = Live::new(stage);
    let mut map = PrimEntities::new();
    let mut next = 0;
    sync(&mut map, &["/World"], &mut next);
    let base = map.len();

    live.stage.define_prim("/World/NewChild").unwrap();
    assert!(matches!(apply_changes(&live.drain(), &map), SyncPlan::Reconcile));
    sync(&mut map, &["/World", "/World/NewChild"], &mut next);
    let child = map.entity("/World/NewChild").expect("new prim projected");
    assert_eq!(map.len(), base + 1);
    assert_eq!(map.path(child), Some("/World/NewChild"));

    live.stage.remove_prim("/World/NewChild").unwrap();
    assert!(matches!(apply_changes(&live.drain(), &map), SyncPlan::Reconcile));
    let plan = reconcile(&mut map, &vec!["/World".to_string()]);
    assert_eq!(plan.despawned, [("/World/NewChild".to_string(), child)]);
    assert!(map.entity("/World/NewChild").is_none(), "removed prim despawned");
    assert_eq!(map.len(), base);
    assert_eq!(map.path(child), None);
}

#[test]
fn author_transform_roundtrips_and_notifies() {
    let stage = Stage::builder().in_memory("auth.usda").unwrap();
    stage.define_prim("/Foo").unwrap().set_type_name("Xform").unwrap();
    let live = Live::new(stage);

    let (matrix, order) = author_transform("/Foo").unwrap();
    assert_eq!(matrix, "/Foo.xformOp:transform");
    assert_eq!(order, "/Foo.xformOpOrder");
    let m = [
        2.0, 0.0, 0.0, 0.0, 0.0, 2.0, 0.0, 0.0, 0.0, 0.0, 2.0, 0.0, 3.0, 4.0, 5.0, 1.0,
    ];
    live.stage
        .create_attribute(matrix.as_str(), "matrix4d")
        .unwrap()
        .set(Value::Matrix4d(openusd::gf::Matrix4d(m)))
        .unwrap();
    live.stage
        .create_attribute(order.as_str(), "token[]")
        .unwrap()
        .set(Value::TokenVec(vec!["xformOp:transform".into()]))
        .unwrap();
    assert!(live.has_changes(), "authoring fires the sink");
    match live.stage.attribute(matrix.as_str()).get::<Value>() {
        Ok(Some(Value::Matrix4d(back))) => assert_eq!(back.0, m),
        other => panic!("transform authored, got {other:?}"),
    }
    assert!(author_transform("/Foo.size").is_err());
}

#[test]
fn prim_entities_bimap_subtree() {
    let (a, b, c) = (1, 2, 3);
    let mut map = PrimEntities::new();
    map.insert("/World", a);
    map.insert("/World/Mesh", b);
    map.insert("/Other", c);

    assert_eq!(map.entity("/World/Mesh"), Some(b));
    assert_eq!(map.path(a), Some("/World"));

    let sub: Vec<String> = map.subtree("/World").into_iter().map(|(p, _)| p).collect();
    assert_eq!(sub.len(), 2, "subtree of /World = {{/World, /World/Mesh}}");
    assert!(sub.iter().all(|p| p.starts_with("/World")));

    assert_eq!(map.remove_path("/World/Mesh"), Some(b));
    assert_eq!(map.entity("/World/Mesh"), None);
    assert_eq!(map.path(b), None);
}

#[test]
fn both_directions_agree_after_removals() {
    let mut map = PrimEntities::new();
    assert!(map.is_empty());
    map.insert("/A", 1);
    map.insert("/AB", 2);
    assert_eq!(map.subtree("/A").len(), 1);
    assert_eq!(map.remove_entity(2), Some("/AB".to_string()));
    assert_eq!(map.remove_entity(2), None);
    assert_eq!(map.remove_path("/None"), None);
    assert_eq!(map.iter(), [("/A".to_string(), 1)]);
    assert_eq!(map.len(), 1);
}

#[test]
fn property_paths_name_their_prim() {
    assert_eq!(prim_of("/A/B.size"), "/A/B");
    assert_eq!(prim_of("/A/B"), "/A/B");
    assert_eq!(prim_of("/A.x.y"), "/A");
}

#[test]
fn reconciling_matches_the_stage() {
    let mut map = PrimEntities::new();
    let mut next = 0;
    sync(&mut map, &["/A", "/B", "/C"], &mut next);
    sync(&mut map, &["/B", "/D"], &mut next);
    let mut paths: Vec<String> = map.iter().into_iter().map(|(p, _)| p).collect();
    paths.sort();
    assert_eq!(paths, ["/B", "/D"]);
    for (path, entity) in map.iter() {
        assert_eq!(map.path(entity), Some(path.as_str()));
        assert_eq!(map.entity(&path), Some(entity));
    }
}

#[test]
fn the_root_has_every_path_below_it() {
    let mut map = PrimEntities::new();
    map.insert("/World", 1);
    assert_eq!(map.subtree("/"), [("/World".to_string(), 1)]);
    map.insert("/World/Mesh", 2);
    assert_eq!(map.subtree("/").len(), 2);
    assert_eq!(map.subtree("/World/").len(), 1);
}

#[test]
fn a_new_mapping_replaces_the_old_ones() {
    let mut map = PrimEntities::new();
    map.insert("/A", 1);
    map.insert("/A", 2);
    assert_eq!((map.entity("/A"), map.path(1), map.path(2)), (Some(2), None, Some("/A")));
    map.insert("/B", 2);
    assert_eq!((map.entity("/A"), map.entity("/B")), (None, Some(2)));
    assert_eq!(map.path(2), Some("/B"));
    assert_eq!(map.len(), 1);
}

#[test]
fn a_resync_keeps_and_maps_entities() {
    let mut map = PrimEntities::new();
    map.insert("/Gone", 1);
    map.insert("/Stays", 2);
    let current = ["/Stays", "/New", "/Stays", "/New"].map(String::from).to_vec();
    let plan = reconcile(&mut map, &current);
    assert_eq!(plan.despawned, [("/Gone".to_string(), 1)]);
    assert_eq!(plan.patched, [("/Stays".to_string(), 2)]);
    assert_eq!(plan.spawned, ["/New".to_string()]);
    assert_eq!((map.path(1), map.path(2)), (None, Some("/Stays")));
    insert_spawned(&mut map, &vec![("/New".to_string(), 7)]);
    assert_eq!(map.entity("/New"), Some(7));
    assert_eq!(map.path(7), Some("/New"));
    assert_eq!(map.entity("/Stays"), Some(2));
    assert_eq!(map.len(), 2);
}
