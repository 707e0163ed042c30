use fl16_inputmodules::animations::{BreathingIterator, GameOfLifeIterator};
use fl16_inputmodules::control::{
    CommandVals, DisplayMode, GameControlArg, GameOfLifeStartParam, GameVal, PatternVals,
    PwmFreqArg, ScreenSaverState,
};
use fl16_inputmodules::game_of_life::GameOfLifeState;
use fl16_inputmodules::matrix::{Grid, HEIGHT, WIDTH};
use fl16_inputmodules::serialnum::{device_release, is_pre_release};

fn lit(g: &Grid) -> Vec<(usize, usize)> {
    let mut v = Vec::new();
    for y in 0..HEIGHT {
        for x in 0..WIDTH {
            if g.0[x][y] == 0xFF {
                v.push((y, x));
            }
        }
    }
    v
}

#[test]
fn blinker_oscillates() {
    let mut s = GameOfLifeState::new(GameOfLifeStartParam::Blinker, &Grid::default());
    let start = lit(&s.draw_matrix());
    assert_eq!(start, vec![(4, 5), (4, 6), (4, 7), (8, 5), (8, 6), (8, 7)]);
    s.tick();
    assert_eq!(
        lit(&s.draw_matrix()),
        vec![(3, 6), (4, 6), (5, 6), (7, 6), (8, 6), (9, 6)]
    );
    s.tick();
    assert_eq!(lit(&s.draw_matrix()), start);
}

#[test]
fn neighbours_wrap_around_edges() {
    let mut g = Grid::default();
    g.0[WIDTH - 1][HEIGHT - 1] = 1;
    g.0[0][1] = 1;
    g.0[1][0] = 1;
    let s = GameOfLifeState::new(GameOfLifeStartParam::CurrentMatrix, &g);
    assert_eq!(s.live_neighbor_count(0, 0), 3);
    assert_eq!(s.live_neighbor_count(HEIGHT - 1, WIDTH - 1), 0);
    assert_eq!(s.live_neighbor_count(HEIGHT - 1, 0), 2);
    assert_eq!(s.live_neighbor_count(10, 4), 0);
    // positions off the matrix wrap around it
    assert_eq!(s.live_neighbor_count(HEIGHT, WIDTH), 3);
    assert_eq!(s.live_neighbor_count(usize::MAX, usize::MAX), s.live_neighbor_count(usize::MAX % HEIGHT, usize::MAX % WIDTH));
}

#[test]
fn combine_is_union() {
    let a = GameOfLifeState::new(GameOfLifeStartParam::Beacon, &Grid::default());
    let b = GameOfLifeState::new(GameOfLifeStartParam::Toad, &Grid::default());
    let c = a.combine(&b);
    let mut expected = lit(&a.draw_matrix());
    expected.extend(lit(&b.draw_matrix()));
    expected.sort();
    let mut got = lit(&c.draw_matrix());
    got.sort();
    assert_eq!(got, expected);
    assert_eq!(got.len(), 14);
}

#[test]
fn pattern1_marks_multiples_of_two_and_seven() {
    let s = GameOfLifeState::new(GameOfLifeStartParam::Pattern1, &Grid::default());
    let g = s.draw_matrix();
    assert_eq!(g.0[0][0], 0xFF);
    assert_eq!(g.0[0][1], 0);
    assert_eq!(g.0[0][7], 0xFF);
    assert_eq!(g.0[1][1], 0xFF);
    assert_eq!(g.0[1][3], 0);
}

#[test]
fn game_of_life_frames_end() {
    let mut it = GameOfLifeIterator::new(GameOfLifeStartParam::Glider, 2);
    assert!(it.next().is_some());
    assert!(it.next().is_some());
    assert!(it.next().is_none());
}

#[test]
fn breathing_brightens_by_four() {
    let mut it = BreathingIterator::new(100);
    assert_eq!(it.next().unwrap().0[3][7], 4);
    assert_eq!(it.next().unwrap().0[0][0], 8);
    let mut last = 0;
    for _ in 0..61 {
        last = it.next().unwrap().0[8][33];
    }
    assert_eq!(last, 252);
    // 252 + 4 wraps to 0
    assert_eq!(it.next().unwrap().0[0][0], 0);
    let mut empty = BreathingIterator::new(0);
    assert!(empty.next().is_none());
}

#[test]
fn command_bytes() {
    assert_eq!(CommandVals::from_u8(0x00), Some(CommandVals::Brightness));
    assert_eq!(CommandVals::from_u8(0x1E), Some(CommandVals::PwmFreq));
    assert_eq!(CommandVals::from_u8(0x20), Some(CommandVals::Version));
    assert_eq!(CommandVals::from_u8(0x1D), None);
    assert_eq!(PatternVals::from_u8(0x07), Some(PatternVals::DisplayLotus2));
    assert_eq!(PatternVals::from_u8(0x08), None);
    assert_eq!(GameVal::from_u8(3), Some(GameVal::GameOfLife));
    assert_eq!(GameControlArg::from_u8(4), Some(GameControlArg::Exit));
    assert_eq!(GameOfLifeStartParam::from_u8(6), Some(GameOfLifeStartParam::BeaconToadBlinker));
    assert_eq!(GameOfLifeStartParam::from_u8(7), None);
    assert_eq!(DisplayMode::from_u8(1), Some(DisplayMode::Hpm));
    assert_eq!(PwmFreqArg::from_u8(3), Some(PwmFreqArg::P900));
    assert_eq!(PwmFreqArg::from_u8(4), None);
}

#[test]
fn screen_saver_starts_down_right() {
    let s = ScreenSaverState::default();
    assert_eq!((s.rightwards, s.downwards), (1, 1));
}

#[test]
fn release_number_packs_version() {
    assert_eq!(device_release(0, 5, 0), 0x0050);
    assert_eq!(device_release(1, 2, 3), 0x0123);
    assert!(is_pre_release("alpha"));
    assert!(!is_pre_release(""));
}
