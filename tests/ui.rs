use qterm::achievements::{AchievementCategory, AchievementManager};
use qterm::animations::{Animation, AnimationManager, EasingFunction};

#[test]
fn achievements_keep_the_three_newest() {
    let mut m = AchievementManager::new();
    for (i, t) in ["one", "two", "three", "four"].iter().enumerate() {
        m.add_achievement(t, "desc", AchievementCategory::Quantum, i as u64);
    }
    assert_eq!(m.len(), 3);
    let titles: Vec<String> = m.get_active_notifications(10).iter().map(|a| a.title.clone()).collect();
    assert_eq!(titles, vec!["two", "three", "four"]);
}

#[test]
fn notifications_expire_after_five_seconds() {
    let mut m = AchievementManager::new();
    m.add_achievement("a", "", AchievementCategory::Command, 0);
    m.add_achievement("b", "", AchievementCategory::Debug, 1000);
    m.add_achievement("c", "", AchievementCategory::Expert, 6000);
    let active = m.get_active_notifications(6000);
    assert_eq!(active.len(), 1);
    assert_eq!(active[0].title, "c");
    assert_eq!(active[0].shown_at_ms, 6000);
    assert!(active[0].icon.is_none());
    assert_eq!(m.get_active_notifications(5999).len(), 2);
    m.clear_old_notifications(6000);
    assert_eq!(m.len(), 1);
    m.clear_old_notifications(20000);
    assert_eq!(m.len(), 0);
}

#[test]
fn animation_completes_after_its_duration() {
    let mut a = Animation::new(1000, EasingFunction::Linear, 500);
    assert!(!a.is_complete());
    a.update(1200);
    assert_eq!(a.elapsed_ms, 700);
    assert!(!a.is_complete());
    a.update(1500);
    assert!(a.is_complete());
    a.update(100);
    assert_eq!(a.elapsed_ms, 0);
}

#[test]
fn manager_drops_complete_animations() {
    let mut m = AnimationManager::new();
    m.add_animation(100, EasingFunction::EaseIn, 0);
    m.add_animation(1000, EasingFunction::Bounce, 0);
    m.add_animation(50, EasingFunction::Elastic, 0);
    m.update(100);
    assert_eq!(m.len(), 1);
    assert_eq!(m.get(0).unwrap().duration_ms, 1000);
    assert_eq!(m.get(0).unwrap().elapsed_ms, 100);
    assert!(m.get(1).is_none());
    m.update(1000);
    assert_eq!(m.len(), 0);
}
