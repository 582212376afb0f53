//! End-to-end tests over the real animation graph and player: graph
//! construction, configuration attachment, reconciliation, and the
//! completion-driven queue.

use bevy::animation::graph::AnimationNodeIndex;
use bevy::animation::AnimationPlayer;
use bevy::animation::AnimationTargetId;
use bevy::animation::RepeatAnimation;
use bevy::asset::Handle;

use pg_anims::attach_animation_graphs;
use pg_anims::init_graph;
use pg_anims::play_next_after_finished;
use pg_anims::split_path;
use pg_anims::update_animation;
use pg_anims::Anim;
use pg_anims::AnimEndEvent;
use pg_anims::AnimGraphInit;
use pg_anims::AnimStartEvent;
use pg_anims::AnimsConf;
use pg_anims::ClipHandle;
use pg_anims::ConfigError;
use pg_anims::PGAnimatable;
use pg_anims::PGAnimsPlugin;

fn clip_handles(n: usize) -> Vec<ClipHandle> {
    (0..n).map(|_| ClipHandle { handle: Handle::default() }).collect()
}

fn playing_nodes(player: &AnimationPlayer) -> Vec<usize> {
    let mut nodes: Vec<usize> = player.playing_animations().map(|(id, _)| id.index()).collect();
    nodes.sort();
    nodes
}

#[test]
fn index_table_maps_clips_shifted_by_one() {
    let init = AnimGraphInit { clips: clip_handles(3) };
    let (graph, table) = init_graph(&init);
    assert_eq!(table.animations, vec![0, 1, 2, 3]);
    assert!(!table.initialized);
    assert_eq!(graph.root.index(), 0);
    assert_eq!(graph.graph.node_count(), 4);
}

#[test]
fn split_path_handles_separators_and_edges() {
    assert_eq!(split_path("Root/Spine/Arm"), vec!["Root", "Spine", "Arm"]);
    assert_eq!(split_path("Pelvis"), vec!["Pelvis"]);
    assert_eq!(split_path(""), vec![""]);
    assert_eq!(split_path("/Hips"), vec!["", "Hips"]);
    assert_eq!(split_path("Hips/"), vec!["Hips", ""]);
}

#[test]
fn scenario_spawn_plays_default_looping() {
    let init = AnimGraphInit { clips: clip_handles(3) };
    let (mut graph, table) = init_graph(&init);
    let mut player = AnimationPlayer::default();

    let anim = Anim::new(1);
    let speeds = update_animation(&mut graph, &table, &mut player, &anim);
    assert_eq!(speeds, Some(Vec::new()));

    assert_eq!(playing_nodes(&player), vec![1]);
    let (_, active) = player.playing_animations().next().unwrap();
    assert_eq!(active.repeat_mode(), RepeatAnimation::Forever);
    assert_eq!(active.speed(), 1.0);
    let node = graph.get(AnimationNodeIndex::new(1)).unwrap();
    assert_eq!(node.mask, 0);

    // Re-issuing the unchanged directive is a no-op.
    let again = update_animation(&mut graph, &table, &mut player, &anim);
    assert!(again.is_none());
    assert_eq!(playing_nodes(&player), vec![1]);
}

#[test]
fn reissued_directive_with_reordered_duplicates_is_noop() {
    let init = AnimGraphInit { clips: clip_handles(3) };
    let (mut graph, table) = init_graph(&init);
    let mut player = AnimationPlayer::default();

    let mut anim = Anim::new(1);
    anim.set(vec![AnimsConf::new(1), AnimsConf::new(2)], true);
    assert!(update_animation(&mut graph, &table, &mut player, &anim).is_some());

    let mut shuffled = Anim::new(1);
    shuffled.set(
        vec![AnimsConf::new(2), AnimsConf::new(1), AnimsConf::new(2)],
        true,
    );
    assert!(update_animation(&mut graph, &table, &mut player, &shuffled).is_none());
    assert_eq!(playing_nodes(&player), vec![1, 2]);
}

#[test]
fn sync_applies_masks_exclusively_and_clears_stale_masks() {
    let init = AnimGraphInit { clips: clip_handles(3) };
    let (mut graph, table) = init_graph(&init);
    let mut player = AnimationPlayer::default();

    let mut anim = Anim::new(1);
    anim.set(
        vec![AnimsConf::new_with_mask(1, 3), AnimsConf::new_with_mask(2, 5)],
        false,
    );
    assert!(update_animation(&mut graph, &table, &mut player, &anim).is_some());
    assert_eq!(graph.get(AnimationNodeIndex::new(1)).unwrap().mask, 1 << 3);
    assert_eq!(graph.get(AnimationNodeIndex::new(2)).unwrap().mask, 1 << 5);
    let (_, active) = player.playing_animations().next().unwrap();
    assert_eq!(active.repeat_mode(), RepeatAnimation::Never);

    // An unmasked entry clears the stale mask rather than keeping it.
    anim.set(vec![AnimsConf::new(1)], false);
    assert!(update_animation(&mut graph, &table, &mut player, &anim).is_some());
    assert_eq!(graph.get(AnimationNodeIndex::new(1)).unwrap().mask, 0);
    assert_eq!(playing_nodes(&player), vec![1]);
}

#[test]
fn sync_reports_speed_requests() {
    let init = AnimGraphInit { clips: clip_handles(3) };
    let (mut graph, table) = init_graph(&init);
    let mut player = AnimationPlayer::default();

    let mut anim = Anim::new(1);
    anim.set(
        vec![AnimsConf::new(1), AnimsConf::new_with_speed(2, 1500)],
        true,
    );
    let speeds = update_animation(&mut graph, &table, &mut player, &anim);
    assert_eq!(speeds, Some(vec![(2, 1500)]));
}

#[test]
fn scenario_queue_plays_sets_in_reverse_push_order() {
    // Owner plays index 2 once, then queued sets [1] and [3] drain on
    // completion: first [3], then [1], then playback stops.
    let mut owners = vec![(
        PGAnimatable { armature: 42, default_anim: 2 },
        Anim::new(2),
    )];
    owners[0].1.set(vec![AnimsConf::new(2)], false);
    owners[0].1.set_next(vec![vec![AnimsConf::new(1)], vec![AnimsConf::new(3)]]);

    // A player with no active animations reports all finished.
    let player = AnimationPlayer::default();

    let changed = play_next_after_finished(&player, 42, &mut owners);
    assert_eq!(changed, Some(0));
    let got: Vec<usize> = owners[0].1.anims.iter().map(|c| c.index).collect();
    assert_eq!(got, vec![3]);

    let changed = play_next_after_finished(&player, 42, &mut owners);
    assert_eq!(changed, Some(0));
    let got: Vec<usize> = owners[0].1.anims.iter().map(|c| c.index).collect();
    assert_eq!(got, vec![1]);

    let changed = play_next_after_finished(&player, 42, &mut owners);
    assert_eq!(changed, Some(0));
    assert!(owners[0].1.anims.is_empty());
    assert!(owners[0].1.next.is_none());
}

#[test]
fn watcher_ignores_running_players_and_unbound_owners() {
    let mut owners = vec![(
        PGAnimatable { armature: 9, default_anim: 1 },
        Anim::new(1),
    )];

    // A player still running (fresh non-repeating animation, no completions)
    // leaves every owner untouched.
    let mut running = AnimationPlayer::default();
    running.play(AnimationNodeIndex::new(1));
    assert!(!running.all_finished());
    assert_eq!(play_next_after_finished(&running, 9, &mut owners), None);
    let got: Vec<usize> = owners[0].1.anims.iter().map(|c| c.index).collect();
    assert_eq!(got, vec![1]);

    // A finished player bound to a different armature matches no owner.
    let finished = AnimationPlayer::default();
    assert_eq!(play_next_after_finished(&finished, 8, &mut owners), None);
    let got: Vec<usize> = owners[0].1.anims.iter().map(|c| c.index).collect();
    assert_eq!(got, vec![1]);
}

#[test]
fn scenario_attach_plans_start_and_end_markers() {
    let init = AnimGraphInit { clips: clip_handles(3) };
    let (mut graph, mut table) = init_graph(&init);
    let config = PGAnimsPlugin {
        anims_with_start_event: vec![2],
        anims_with_end_event: vec![2],
        targets_masks_mapping: Vec::new(),
    };
    let (starts, ends) = attach_animation_graphs(&mut graph, &mut table, &config, 7).unwrap();
    assert_eq!(starts, vec![AnimStartEvent { anim: 2, armature_entity: 7 }]);
    assert_eq!(ends, vec![AnimEndEvent { anim: 2, armature_entity: 7 }]);
    assert!(table.initialized);

    // Attachment is one-shot: a second pass plans nothing new.
    let (starts, ends) = attach_animation_graphs(&mut graph, &mut table, &config, 7).unwrap();
    assert!(starts.is_empty());
    assert!(ends.is_empty());
}

#[test]
fn attach_registers_mask_groups_for_bone_paths() {
    let init = AnimGraphInit { clips: clip_handles(2) };
    let (mut graph, mut table) = init_graph(&init);
    let config = PGAnimsPlugin {
        anims_with_start_event: Vec::new(),
        anims_with_end_event: Vec::new(),
        targets_masks_mapping: vec![
            ("Root/Spine".to_string(), vec![1, 2]),
            ("Root/Hips".to_string(), vec![2]),
        ],
    };
    assert!(attach_animation_graphs(&mut graph, &mut table, &config, 1).is_ok());

    let spine = AnimationTargetId::from_iter(["Root", "Spine"]);
    let hips = AnimationTargetId::from_iter(["Root", "Hips"]);
    assert_eq!(graph.mask_groups.get(&spine), Some(&((1u64 << 1) | (1u64 << 2))));
    assert_eq!(graph.mask_groups.get(&hips), Some(&(1u64 << 2)));
}

#[test]
fn attach_rejects_bad_event_indices_and_mask_groups() {
    let init = AnimGraphInit { clips: clip_handles(3) };
    let (mut graph, mut table) = init_graph(&init);

    let root_event = PGAnimsPlugin {
        anims_with_start_event: vec![0],
        anims_with_end_event: Vec::new(),
        targets_masks_mapping: Vec::new(),
    };
    assert_eq!(
        attach_animation_graphs(&mut graph, &mut table, &root_event, 1),
        Err(ConfigError::EventIndexOutOfRange { index: 0 })
    );

    let beyond = PGAnimsPlugin {
        anims_with_start_event: Vec::new(),
        anims_with_end_event: vec![4],
        targets_masks_mapping: Vec::new(),
    };
    assert_eq!(
        attach_animation_graphs(&mut graph, &mut table, &beyond, 1),
        Err(ConfigError::EventIndexOutOfRange { index: 4 })
    );

    let big_group = PGAnimsPlugin {
        anims_with_start_event: Vec::new(),
        anims_with_end_event: Vec::new(),
        targets_masks_mapping: vec![("Root".to_string(), vec![64])],
    };
    assert_eq!(
        attach_animation_graphs(&mut graph, &mut table, &big_group, 1),
        Err(ConfigError::MaskGroupOutOfRange { group: 64 })
    );
    assert!(!table.initialized);
    assert!(graph.mask_groups.is_empty());
}

#[test]
fn stop_all_directive_stops_player() {
    let init = AnimGraphInit { clips: clip_handles(2) };
    let (mut graph, table) = init_graph(&init);
    let mut player = AnimationPlayer::default();

    let mut anim = Anim::new(1);
    assert!(update_animation(&mut graph, &table, &mut player, &anim).is_some());
    assert_eq!(playing_nodes(&player), vec![1]);

    anim.stop_all();
    assert!(update_animation(&mut graph, &table, &mut player, &anim).is_some());
    assert!(playing_nodes(&player).is_empty());
}
