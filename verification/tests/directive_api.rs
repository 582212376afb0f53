//! Tests of the directive model and its mutation API.

use pg_anims::Anim;
use pg_anims::AnimsConf;
use pg_anims::AncestorInfo;
use pg_anims::PGAnimatable;
use pg_anims::update_animatable;

fn indices(anim: &Anim) -> Vec<usize> {
    anim.anims.iter().map(|c| c.index).collect()
}

#[test]
fn new_directive_loops_single_entry() {
    let anim = Anim::new(4);
    assert_eq!(indices(&anim), vec![4]);
    assert!(anim.repeat);
    assert!(anim.next.is_none());
    assert!(anim.anims[0].mask.is_none());
    assert!(anim.anims[0].speed.is_none());
}

#[test]
fn get_collapses_duplicates_and_order() {
    let mut anim = Anim::new(1);
    anim.set(
        vec![AnimsConf::new(3), AnimsConf::new(1), AnimsConf::new(3)],
        true,
    );
    let set = anim.get();
    assert_eq!(set.len(), 2);
    assert!(set.contains(&1));
    assert!(set.contains(&3));

    let mut other = Anim::new(1);
    other.set(vec![AnimsConf::new(1), AnimsConf::new(3)], true);
    assert_eq!(anim.get(), other.get());
}

#[test]
fn set_loop_and_set_once_replace_entries() {
    let mut anim = Anim::new(1);
    anim.set_loop(7);
    assert_eq!(indices(&anim), vec![7]);
    assert!(anim.repeat);

    anim.set_once(2);
    assert_eq!(indices(&anim), vec![2]);
    assert!(!anim.repeat);
}

#[test]
fn stop_all_clears_entries_only() {
    let mut anim = Anim::new(5);
    anim.set_next(vec![vec![AnimsConf::new(1)]]);
    anim.stop_all();
    assert!(anim.anims.is_empty());
    assert!(anim.repeat);
    assert!(anim.next.is_some());
}

#[test]
fn entry_constructors_set_mask_and_speed() {
    let plain = AnimsConf::new(3);
    assert_eq!(plain.index, 3);
    assert!(plain.mask.is_none());
    assert!(plain.speed.is_none());

    let masked = AnimsConf::new_with_mask(3, 9);
    assert_eq!(masked.index, 3);
    assert_eq!(masked.mask, Some(9));
    assert!(masked.speed.is_none());

    let fast = AnimsConf::new_with_speed(3, 1500);
    assert_eq!(fast.index, 3);
    assert!(fast.mask.is_none());
    assert_eq!(fast.speed, Some(1500));
}

#[test]
fn advance_drains_queue_lifo() {
    let mut anim = Anim::new(2);
    anim.set_next(vec![
        vec![AnimsConf::new(10)],
        vec![AnimsConf::new(11)],
        vec![AnimsConf::new(12)],
    ]);

    anim.advance_after_finished();
    assert_eq!(indices(&anim), vec![12]);
    anim.advance_after_finished();
    assert_eq!(indices(&anim), vec![11]);
    anim.advance_after_finished();
    assert_eq!(indices(&anim), vec![10]);
    anim.advance_after_finished();
    assert!(anim.anims.is_empty());
    assert!(anim.next.is_none());
}

#[test]
fn advance_without_queue_stops_playback() {
    let mut anim = Anim::new(6);
    anim.advance_after_finished();
    assert!(anim.anims.is_empty());
    assert!(anim.next.is_none());
}

#[test]
fn binding_inherits_nearest_animatable_default() {
    let ancestors = vec![
        AncestorInfo { entity: 21, animatable_default: None },
        AncestorInfo { entity: 22, animatable_default: Some(5) },
        AncestorInfo { entity: 23, animatable_default: Some(9) },
    ];
    let binding = update_animatable(77, &ancestors);
    assert_eq!(binding.owner, Some(22));
    assert_eq!(binding.animatable.armature, 77);
    assert_eq!(binding.animatable.default_anim, 5);
    assert_eq!(indices(&binding.anim), vec![5]);
    assert!(binding.anim.repeat);
    assert!(binding.anim.next.is_none());
}

#[test]
fn binding_without_owner_degrades_to_default_zero() {
    let ancestors = vec![
        AncestorInfo { entity: 21, animatable_default: None },
        AncestorInfo { entity: 22, animatable_default: None },
    ];
    let binding = update_animatable(5, &ancestors);
    assert_eq!(binding.owner, None);
    assert_eq!(binding.animatable.armature, 5);
    assert_eq!(binding.animatable.default_anim, 0);
    assert_eq!(indices(&binding.anim), vec![0]);
    assert!(binding.anim.repeat);
}

#[test]
fn animatable_new_uses_placeholder_armature() {
    let marker = PGAnimatable::new(3);
    assert_eq!(marker.armature, pg_anims::binding::ARMATURE_PLACEHOLDER);
    assert_eq!(marker.default_anim, 3);
}
