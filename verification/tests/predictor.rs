use std::collections::HashSet;
use wluma::predictor::controller::adaptive::{Controller, Outcome};
use wluma::predictor::controller::{
    interpolate, newest, newest_lux, Debouncer, NEXT_ALS_COOLDOWN_RESET, PENDING_COOLDOWN_RESET,
};
use wluma::predictor::data::{Data, Entry};

const ALS_DARK: &str = "dark";
const ALS_DIM: &str = "dim";
const ALS_BRIGHT: &str = "bright";

fn setup_predictor() -> Controller {
    Controller::new(None, false, "Dell 1")
}

#[test]
fn test_process_first_user_change() {
    let mut controller = setup_predictor();

    // User changes brightness to value 33 for a given lux and luma
    controller.process(ALS_DIM, 66, newest(&vec![0, 33]));

    assert_eq!(Some(Entry::new(ALS_DIM, 66, 33)), controller.pending);
    assert_eq!(PENDING_COOLDOWN_RESET, controller.pending_cooldown);
}

#[test]
fn test_process_several_continuous_user_changes() {
    let mut controller = setup_predictor();

    // User initiates brightness change for a given lux and luma to value 33...
    controller.process(ALS_DIM, 66, newest(&vec![0, 33]));
    // then quickly continues increasing it to 34 (while lux and luma might already be different)...
    controller.process(ALS_BRIGHT, 36, newest(&vec![34]));
    // and even faster to 36 (which is the intended brightness value they wish to learn for the initial lux and luma)
    controller.process(ALS_DARK, 16, newest(&vec![35, 36]));

    assert_eq!(Some(Entry::new(ALS_DIM, 66, 36)), controller.pending);
    assert_eq!(PENDING_COOLDOWN_RESET, controller.pending_cooldown);
}

#[test]
fn test_process_learns_user_change_after_cooldown() {
    let mut controller = setup_predictor();

    // User changes brightness to a desired value
    controller.process(ALS_DIM, 66, newest(&vec![0, 33]));
    controller.process(ALS_BRIGHT, 36, newest(&vec![33]));
    controller.process(ALS_DARK, 16, newest(&vec![35]));

    for i in 1..PENDING_COOLDOWN_RESET {
        // User doesn't change brightness anymore, so even if lux or luma change, we are in cooldown period
        controller.process(ALS_BRIGHT, i, newest(&vec![]));
        assert_eq!(PENDING_COOLDOWN_RESET - i, controller.pending_cooldown);
        assert_eq!(Some(Entry::new(ALS_DIM, 66, 35)), controller.pending);
        assert!(controller.data.entries.is_empty());
    }

    // The tick on which the cooldown runs out will trigger the learning
    controller.process(ALS_DARK, 17, newest(&vec![]));

    assert_eq!(None, controller.pending);
    assert_eq!(0, controller.pending_cooldown);
    assert_eq!(vec![Entry::new(ALS_DIM, 66, 35)], controller.data.entries);
}

#[test]
fn test_learn_data_cleanup() {
    let mut controller = setup_predictor();

    let pending = Entry::new(ALS_DIM, 20, 30);

    let all_als = [ALS_DARK, ALS_DIM, ALS_BRIGHT];
    let mut all_combinations: HashSet<Entry> = HashSet::new();
    for i in -1i32..=1 {
        for j in -1i32..=1 {
            for k in -1i32..=1 {
                all_combinations.insert(Entry::new(
                    all_als[(1 + i) as usize],
                    (20 + j) as u8,
                    (30 + k) as u64,
                ));
            }
        }
    }

    let to_be_deleted: HashSet<Entry> = vec![
        // same env darker screen
        Entry::new(ALS_DIM, 19, 29),
        // same env same screen
        Entry::new(ALS_DIM, 20, 29),
        Entry::new(ALS_DIM, 20, 31),
        // same env brighter screen
        Entry::new(ALS_DIM, 21, 31),
    ]
    .into_iter()
    .collect();

    controller.data.entries = all_combinations.iter().cloned().collect();
    controller.pending = Some(pending);

    controller.learn();

    let to_remain: HashSet<&Entry> = all_combinations.difference(&to_be_deleted).collect();
    let remained: HashSet<&Entry> = controller.data.entries.iter().collect();

    assert_eq!(
        Vec::<&&Entry>::new(),
        to_remain.difference(&remained).collect::<Vec<_>>(),
        "unexpected entries were removed"
    );

    assert_eq!(
        Vec::<&&Entry>::new(),
        remained.difference(&to_remain).collect::<Vec<_>>(),
        "some entries were not removed"
    );

    assert_eq!(
        to_remain.len(),
        controller.data.entries.len(),
        "duplicate entries remained"
    );
}

#[test]
fn test_predict_no_data_points() {
    let mut controller = setup_predictor();
    controller.data.entries = vec![];

    assert_eq!(None, controller.predict(ALS_DIM, 20));
}

#[test]
fn test_predict_no_data_points_for_current_als_profile() {
    let mut controller = setup_predictor();
    controller.data.entries = vec![
        Entry::new(ALS_DARK, 50, 100),
        Entry::new(ALS_BRIGHT, 60, 100),
    ];

    assert_eq!(None, controller.predict(ALS_DIM, 20));
}

#[test]
fn test_predict_one_data_point() {
    let mut controller = setup_predictor();
    controller.data.entries = vec![Entry::new(ALS_DIM, 10, 15)];

    assert_eq!(Some(15), controller.predict(ALS_DIM, 20));
}

#[test]
fn test_predict_known_conditions() {
    let mut controller = setup_predictor();
    controller.data.entries = vec![Entry::new(ALS_DIM, 10, 15), Entry::new(ALS_DIM, 20, 30)];

    assert_eq!(Some(30), controller.predict(ALS_DIM, 20));
}

#[test]
fn test_predict_approximate() {
    let mut controller = setup_predictor();
    controller.data.entries = vec![
        Entry::new(ALS_DIM, 10, 15),
        Entry::new(ALS_DIM, 20, 30),
        Entry::new(ALS_DIM, 100, 100),
    ];

    assert_eq!(Some(43), controller.predict(ALS_DIM, 50));
}

#[test]
fn test_predict_only_uses_data_for_current_als_profile() {
    let mut controller = setup_predictor();
    controller.data.entries = vec![
        Entry::new(ALS_DIM, 10, 15),
        Entry::new(ALS_DIM, 20, 30),
        Entry::new(ALS_DIM, 100, 100),
        Entry::new(ALS_DARK, 50, 100),
        Entry::new(ALS_BRIGHT, 51, 100),
    ];

    assert_eq!(Some(43), controller.predict(ALS_DIM, 50));
}

#[test]
fn interpolate_is_exact_beyond_machine_words() {
    // a hundred points: the weights are products of ninety-nine distances
    let entries: Vec<Entry> = (0u64..100)
        .map(|i| {
            Entry::new(
                ALS_DIM,
                (i * 2) as u8,
                1_000_000_000_000_000 + (200 - i) * 1_000_000_000_000 + i * i,
            )
        })
        .collect();

    assert_eq!(Some(1149670202638330), interpolate(&entries, ALS_DIM, 101));
    assert_eq!(Some(1187188488778947), interpolate(&entries, ALS_DIM, 7));
    assert_eq!(Some(1138299206670878), interpolate(&entries, ALS_DIM, 255));
    // an entry at the very luma decides alone
    assert_eq!(Some(entries[50].brightness), interpolate(&entries, ALS_DIM, 100));
}

#[test]
fn interpolate_with_greatest_brightnesses() {
    let entries: Vec<Entry> = (0u64..200)
        .map(|i| Entry::new(ALS_DARK, i as u8, u64::MAX - i))
        .collect();

    assert_eq!(Some(18446744073709551489), interpolate(&entries, ALS_DARK, 250));
    assert_eq!(Some(18446744073709551454), interpolate(&entries, ALS_DARK, 201));
    assert_eq!(Some(u64::MAX), interpolate(&entries, ALS_DARK, 0));
}

#[test]
fn interpolate_with_two_entries_at_the_same_luma() {
    let entries = vec![Entry::new(ALS_DIM, 20, 30), Entry::new(ALS_DIM, 20, 50)];

    // all weights vanish
    assert_eq!(Some(0), interpolate(&entries, ALS_DIM, 20));
    assert_eq!(Some(40), interpolate(&entries, ALS_DIM, 21));
}

#[test]
fn quiet_ticks_keep_the_dataset() {
    let mut controller = setup_predictor();
    controller.data.entries = vec![Entry::new(ALS_BRIGHT, 10, 15), Entry::new(ALS_DIM, 20, 30)];
    controller.start(ALS_BRIGHT.to_string(), 77);
    let before = controller.data.clone();

    for tick in 0u8..100 {
        let arrival = if tick % 7 == 0 { Some(ALS_DIM.to_string()) } else { None };
        let outcome = controller.adjust(tick, arrival, None);
        assert!(matches!(outcome, Outcome::Predicted(_) | Outcome::Unknown));
        assert_eq!(before, controller.data);
        assert_eq!(None, controller.pending);
    }
}

#[test]
fn learn_and_recall() {
    let mut controller = setup_predictor();

    // at startup the brightness is 100 under a bright sky, and the first frame has luma 40
    controller.start(ALS_BRIGHT.to_string(), 100);
    assert_eq!(Outcome::Edited, controller.adjust(40, None, None));
    assert_eq!(Some(Entry::new(ALS_BRIGHT, 40, 100)), controller.pending);

    // the user sets the brightness to 60
    assert_eq!(Outcome::Edited, controller.adjust(40, None, newest(&vec![60])));

    // after as many calls without an edit as the cooldown has ticks, the entry is learned
    for _ in 1..PENDING_COOLDOWN_RESET {
        assert_eq!(Outcome::Cooling, controller.adjust(40, None, None));
        assert!(controller.data.entries.is_empty());
    }
    assert_eq!(Outcome::Learned, controller.adjust(40, None, None));
    assert_eq!(vec![Entry::new(ALS_BRIGHT, 40, 60)], controller.data.entries);
    assert_eq!(None, controller.pending);
    assert_eq!(0, controller.pending_cooldown);

    assert_eq!(Outcome::Predicted(60), controller.adjust(40, None, None));
}

#[test]
fn monotone_pruning() {
    let mut data = Data::new("eDP-1");
    data.entries = vec![
        Entry::new(ALS_DIM, 20, 80),
        Entry::new(ALS_DIM, 30, 70),
        Entry::new(ALS_DIM, 40, 60),
    ];

    data.learn(Entry::new(ALS_DIM, 30, 50));

    // the darker screen with more brightness agrees with the new entry and stays;
    // the entry at the same luma is replaced; the lighter screen with more brightness goes
    assert_eq!(
        vec![Entry::new(ALS_DIM, 20, 80), Entry::new(ALS_DIM, 30, 50)],
        data.entries
    );
    for entry in &data.entries {
        assert!(entry.luma >= 30 || entry.brightness >= 50);
        assert!(entry.luma <= 30 || entry.brightness <= 50);
    }
}

#[test]
fn learn_leaves_other_lux_alone_and_sorts() {
    let mut data = Data::new("eDP-1");
    data.entries = vec![
        Entry::new("dim", 90, 1),
        Entry::new("dark", 50, 500),
        Entry::new("bright", 50, 1),
        Entry::new("dim", 10, 1),
        Entry::new("dark", 5, 1),
    ];

    data.learn(Entry::new("dim", 50, 100));

    assert_eq!(
        vec![
            Entry::new("bright", 50, 1),
            Entry::new("dark", 5, 1),
            Entry::new("dark", 50, 500),
            Entry::new("dim", 50, 100),
            Entry::new("dim", 90, 1),
        ],
        data.entries
    );
}

#[test]
fn lux_debounce() {
    let mut controller = setup_predictor();
    controller.start(ALS_BRIGHT.to_string(), 100);

    let arrivals = [
        ALS_BRIGHT, ALS_BRIGHT, ALS_DIM, ALS_DIM, ALS_BRIGHT, ALS_BRIGHT, ALS_BRIGHT, ALS_BRIGHT,
        ALS_BRIGHT,
    ];
    for (tick, arrival) in arrivals.iter().enumerate() {
        let edit = if tick == 3 { Some(70) } else { None };
        controller.adjust(40, newest_lux(&vec![arrival.to_string()]), edit);
        assert_eq!(Some(ALS_BRIGHT.to_string()), controller.als.last_als);
    }
    assert_eq!(Some(Entry::new(ALS_BRIGHT, 40, 70)), controller.pending);
}

#[test]
fn lux_is_taken_into_use_after_the_cooldown() {
    let mut debouncer = Debouncer::new();
    debouncer.start(ALS_BRIGHT.to_string());

    debouncer.observe(Some(ALS_DIM.to_string()));
    assert_eq!(NEXT_ALS_COOLDOWN_RESET, debouncer.next_als_cooldown);
    for _ in 1..NEXT_ALS_COOLDOWN_RESET {
        assert_eq!(Some(ALS_BRIGHT.to_string()), debouncer.last_als);
        debouncer.observe(Some(ALS_DIM.to_string()));
    }
    assert_eq!(Some(ALS_BRIGHT.to_string()), debouncer.last_als);
    debouncer.observe(None);
    assert_eq!(Some(ALS_DIM.to_string()), debouncer.last_als);
    assert_eq!(None, debouncer.next_als);
    assert_eq!(0, debouncer.next_als_cooldown);
}

#[test]
fn newest_value_wins() {
    assert_eq!(None, newest(&vec![]));
    assert_eq!(Some(3), newest(&vec![1, 2, 3]));
    assert_eq!(None, newest_lux(&vec![]));
    assert_eq!(
        Some("dim".to_string()),
        newest_lux(&vec!["dark".to_string(), "dim".to_string()])
    );
}

#[test]
fn stored_dataset_is_used_only_when_stateful() {
    let mut stored = Data::new("eDP-1");
    stored.entries = vec![Entry::new(ALS_DIM, 10, 15)];

    let stateful = Controller::new(Some(stored.clone()), true, "eDP-1");
    assert_eq!(stored, stateful.data);
    assert!(stateful.stateful);

    let stateless = Controller::new(Some(stored), false, "eDP-1");
    assert_eq!(Data::new("eDP-1"), stateless.data);

    let mut started = stateful;
    started.start(ALS_DIM.to_string(), 5);
    assert_eq!(None, started.initial_brightness);
    assert!(started.is_started());
}

#[test]
fn pending_is_learned_when_the_cooldown_reaches_zero() {
    let mut controller = setup_predictor();
    controller.process(ALS_DIM, 66, newest(&vec![33]));

    for left in (1..PENDING_COOLDOWN_RESET).rev() {
        assert_eq!(Outcome::Cooling, controller.process(ALS_DIM, 66, None));
        assert_eq!(left, controller.pending_cooldown);
    }
    assert_eq!(Outcome::Learned, controller.process(ALS_BRIGHT, 1, None));
    assert_eq!(vec![Entry::new(ALS_DIM, 66, 33)], controller.data.entries);
    assert_eq!(Outcome::Predicted(33), controller.process(ALS_DIM, 1, None));
    assert_eq!(Outcome::Unknown, controller.process(ALS_BRIGHT, 1, None));

    // what is pending without a cooldown is learned at once
    controller.pending = Some(Entry::new(ALS_BRIGHT, 2, 3));
    assert_eq!(Outcome::Learned, controller.process(ALS_DIM, 1, None));
    // a cooldown with nothing pending only runs
    controller.pending_cooldown = 1;
    assert_eq!(Outcome::Cooling, controller.process(ALS_DIM, 1, None));
    assert_eq!(0, controller.pending_cooldown);
    assert_eq!(2, controller.data.entries.len());
}

#[test]
fn interpolation_lies_between_the_brightnesses() {
    let entries = vec![
        Entry::new(ALS_DIM, 10, 15),
        Entry::new(ALS_DIM, 20, 30),
        Entry::new(ALS_DIM, 100, 100),
        Entry::new(ALS_DARK, 50, 1000),
    ];

    for luma in 0u8..=255 {
        let prediction = interpolate(&entries, ALS_DIM, luma).unwrap();
        assert!((15..=100).contains(&prediction));
    }
}
