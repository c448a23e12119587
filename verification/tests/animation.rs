use minifb_tile_base::entity::animation::{AnimationPlayer, AnimationReel};
use std::time::Duration;

fn ms(n: u64) -> Duration {
    Duration::from_millis(n)
}

#[test]
fn a_new_reel_shows_its_first_frame() {
    let frames = [(4, ms(10)), (7, ms(20)), (9, ms(30))];
    let reel = AnimationReel::new(&frames);
    assert_eq!(reel.index, 4);
    assert_eq!(reel.duration, ms(10));
    assert_eq!(reel.get_index(), 4);
    assert_eq!(reel.get_duration(), ms(10));
}

#[test]
fn next_goes_round_the_reel() {
    let frames = [(4, ms(10)), (7, ms(20)), (9, ms(30))];
    let mut reel = AnimationReel::new(&frames);
    let mut seen = Vec::new();
    for _ in 0..7 {
        reel.next();
        seen.push((reel.index, reel.duration));
    }
    assert_eq!(
        seen,
        vec![
            (4, ms(10)),
            (7, ms(20)),
            (9, ms(30)),
            (4, ms(10)),
            (7, ms(20)),
            (9, ms(30)),
            (4, ms(10))
        ]
    );
}

#[test]
fn a_reel_of_one_frame_stays() {
    let frames = [(2, ms(5))];
    let mut reel = AnimationReel::new(&frames);
    reel.next();
    reel.next();
    assert_eq!((reel.index, reel.duration), (2, ms(5)));
}

#[test]
fn a_new_player_plays_the_first_reel() {
    let tiles = ['a', 'b', 'c'];
    let first = [(1, ms(10)), (2, ms(20))];
    let second = [(0, ms(30))];
    let mut reels = [AnimationReel::new(&first), AnimationReel::new(&second)];
    let player = AnimationPlayer::new(&tiles, &mut reels);
    assert_eq!(player.index, 0);
    assert_eq!(*player.get_frame(), 'b');
    assert_eq!(player.timer.get_duration(), Duration::ZERO);
    assert!(player.timer.is_finished());
}

#[test]
fn set_reel_changes_the_reel_and_restarts_the_timer() {
    let tiles = ['a', 'b', 'c'];
    let first = [(1, ms(10)), (2, ms(20))];
    let second = [(0, ms(30))];
    let mut reels = [AnimationReel::new(&first), AnimationReel::new(&second)];
    let mut player = AnimationPlayer::new(&tiles, &mut reels);
    player.timer.set_duration(ms(50));
    player.timer.record(ms(60));
    assert!(player.timer.is_finished());
    player.set_reel(1);
    assert_eq!(player.index, 1);
    assert_eq!(*player.get_frame(), 'a');
    assert!(!player.timer.is_finished());
    assert_eq!(player.timer.get_duration(), ms(50));
}

#[test]
fn advance_waits_for_the_timer() {
    let tiles = ['a', 'b', 'c'];
    let first = [(1, ms(10)), (2, ms(20))];
    let mut reels = [AnimationReel::new(&first)];
    let mut player = AnimationPlayer::new(&tiles, &mut reels);
    player.timer.set_duration(ms(10));
    player.timer.record(ms(3));
    player.advance();
    assert_eq!(*player.get_frame(), 'b');
    assert_eq!(player.timer.get_duration(), ms(10));
    player.timer.record(ms(10));
    player.advance();
    assert_eq!(*player.get_frame(), 'b');
    assert_eq!(player.timer.get_duration(), ms(10));
    player.advance();
    assert_eq!(*player.get_frame(), 'c');
    assert_eq!(player.timer.get_duration(), ms(20));
    player.advance();
    assert_eq!(*player.get_frame(), 'c');
    player.timer.record(ms(25));
    player.advance();
    assert_eq!(*player.get_frame(), 'b');
    assert_eq!(player.timer.get_duration(), ms(10));
}

#[test]
fn update_timer_advances_when_the_time_is_up() {
    let tiles = ['a', 'b', 'c'];
    let first = [(1, ms(0)), (2, Duration::from_secs(3600)), (0, ms(0))];
    let other = [(0, ms(0))];
    let mut reels = [AnimationReel::new(&first), AnimationReel::new(&other)];
    let mut player = AnimationPlayer::new(&tiles, &mut reels);
    player.update_timer();
    assert_eq!(*player.get_frame(), 'b');
    assert_eq!(player.timer.get_duration(), ms(0));
    player.update_timer();
    assert_eq!(*player.get_frame(), 'c');
    assert_eq!(player.timer.get_duration(), Duration::from_secs(3600));
    player.update_timer();
    assert_eq!(*player.get_frame(), 'c');
    assert_eq!(player.timer.get_duration(), Duration::from_secs(3600));
    assert_eq!(player.reels[1].index, 0);
}
