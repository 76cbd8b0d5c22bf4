//! The compiler and the executor build the same panes: both render the plan.

use nix_tmux_define::{
    Compiler, Direction, Executor, LayoutNode, LayoutPlan, OrderedMap, PaneCommand, PaneTitle,
    RecordingBackend, RootTemplate, Session, SplitRatio, TmuxName, Window,
};

#[derive(Debug, Default, PartialEq, Eq)]
struct SessionShape {
    /// `(flag, pct)` for every `split-window`, in execution order.
    splits: Vec<(String, u32)>,
    /// Resolved pane commands, in phase-2 order.
    commands: Vec<String>,
    /// Resolved pane titles, in phase-2 order.
    titles: Vec<String>,
    /// Number of focus `select-pane` calls (one per window that focuses a pane).
    focus_count: usize,
}

/// The oracle: what both paths *should* render, derived straight from the plan.
fn plan_shape(session: &Session) -> SessionShape {
    let mut shape = SessionShape::default();
    for window in &session.windows {
        let plan = LayoutPlan::build(&window.layout, &session.vars).unwrap();
        for split in plan.splits() {
            shape
                .splits
                .push((split.flag.as_str().to_owned(), split.pct.as_u32()));
        }
        let mut window_focuses = false;
        for leaf in plan.leaves() {
            if let Some(cmd) = &leaf.command {
                shape.commands.push(cmd.as_str().to_owned());
            }
            if let Some(title) = &leaf.title {
                shape.titles.push(title.as_str().to_owned());
            }
            window_focuses |= leaf.focus;
        }
        if window_focuses {
            shape.focus_count += 1;
        }
    }
    shape
}

/// Extract the fingerprint from the executor's recorded backend calls.
fn executor_shape(session: &Session) -> SessionShape {
    let mut backend = RecordingBackend::new();
    Executor::new(&mut backend, 1).run(session).unwrap();

    let mut shape = SessionShape::default();
    for call in backend.calls() {
        if let Some(rest) = call.strip_prefix("split-window:") {
            // %parent:-h:40:/tmp:%new[:env:...]
            let parts: Vec<&str> = rest.split(':').collect();
            let flag = parts[1].to_owned();
            let pct: u32 = parts[2].parse().unwrap();
            shape.splits.push((flag, pct));
        } else if let Some(rest) = call.strip_prefix("send-keys:") {
            // %id:command  → command is everything after the pane id
            let command = rest.split_once(':').unwrap().1.to_owned();
            shape.commands.push(command);
        } else if let Some(rest) = call.strip_prefix("set-pane-title:") {
            let title = rest.split_once(':').unwrap().1.to_owned();
            shape.titles.push(title);
        } else if call.starts_with("select-pane:") {
            shape.focus_count += 1;
        }
    }
    shape
}

/// Extract the fingerprint from the compiler's generated bash script.
fn compiler_shape(session: &Session) -> SessionShape {
    let mut compiler = Compiler::new();
    compiler.compile(session).unwrap();
    let script = compiler.into_script();

    let mut shape = SessionShape::default();
    for line in script.lines() {
        let line = line.trim();
        if line.contains("tmux split-window") {
            let flag = if line.contains(" -h ") { "-h" } else { "-v" }.to_owned();
            let pct = parse_pct(line).expect("split line must carry -l N%");
            shape.splits.push((flag, pct));
        } else if line.contains("tmux send-keys") && line.contains(" -l -- ") {
            let quoted = line.split(" -l -- ").nth(1).unwrap();
            shape.commands.push(unquote(quoted));
        } else if line.contains("tmux select-pane") && line.contains(" -T ") {
            let quoted = line.split(" -T ").nth(1).unwrap();
            shape.titles.push(unquote(quoted));
        } else if line.contains("tmux select-pane") {
            // select-pane without -T is the focus selection
            shape.focus_count += 1;
        }
    }
    shape
}

/// Parse the `-l NN%` pane size out of a compiled `split-window` line.
fn parse_pct(line: &str) -> Option<u32> {
    let after = line.split("-l ").nth(1)?;
    let digits: String = after.chars().take_while(|c| c.is_ascii_digit()).collect();
    digits.parse().ok()
}

/// Strip one layer of POSIX single-quoting. The generator only emits commands
/// and titles without single quotes, so `shell_quote` wraps them in `'…'` with
/// no interior escaping — undone here for comparison with the executor.
fn unquote(s: &str) -> String {
    s.strip_prefix('\'')
        .and_then(|s| s.strip_suffix('\''))
        .unwrap_or(s)
        .to_owned()
}

// ── Strategies ────────────────────────────────────────────────────────────────

// ── Sessions ─────────────────────────────────────────────────────────────────

/// A pseudo-random sequence of numbers.
struct Numbers(u64);

impl Numbers {
    fn below(&mut self, bound: u64) -> u64 {
        self.0 = self
            .0
            .wrapping_mul(6364136223846793005)
            .wrapping_add(1442695040888963407);
        (self.0 >> 33) % bound
    }
}

fn word(numbers: &mut Numbers) -> String {
    let length = 1 + numbers.below(8);
    let mut out = String::from("x");
    for _ in 0..length {
        out.push(char::from(b'a' + numbers.below(26) as u8));
    }
    out
}

fn layout(numbers: &mut Numbers, depth: u64) -> LayoutNode {
    if depth == 0 || numbers.below(3) == 0 {
        return LayoutNode::Pane {
            command: if numbers.below(4) > 0 {
                Some(PaneCommand::new(&format!("{} {}", word(numbers), word(numbers))).unwrap())
            } else {
                None
            },
            focus: numbers.below(2) == 0,
            title: if numbers.below(3) == 0 {
                Some(PaneTitle::new(&word(numbers)).unwrap())
            } else {
                None
            },
            wait_for: None,
        };
    }
    let direction = if numbers.below(2) == 0 {
        Direction::Horizontal
    } else {
        Direction::Vertical
    };
    let ratio = (6 + numbers.below(93)) as f64 / 100.0;
    LayoutNode::split(
        direction,
        SplitRatio::new(ratio.to_bits(), &ratio.to_string()).unwrap(),
        layout(numbers, depth - 1),
        layout(numbers, depth - 1),
    )
}

fn sessions() -> Vec<Session> {
    let mut numbers = Numbers(7);
    (0..256)
        .map(|_| {
            let count = 1 + numbers.below(3);
            Session {
                name: TmuxName::new("s").unwrap(),
                root: Some(RootTemplate::new("/tmp").unwrap()),
                windows: (0..count)
                    .map(|i| Window {
                        name: TmuxName::new(&format!("w{i}")).unwrap(),
                        root: None,
                        env: vec![],
                        options: OrderedMap::new(),
                        select_layout: None,
                        layout: layout(&mut numbers, 4),
                    })
                    .collect(),
                env: vec![],
                pre_hook: None,
                options: OrderedMap::new(),
                vars: OrderedMap::new(),
            }
        })
        .collect()
}

#[test]
fn executor_matches_plan() {
    for session in sessions() {
        assert_eq!(executor_shape(&session), plan_shape(&session));
    }
}

#[test]
fn compiler_matches_plan() {
    for session in sessions() {
        assert_eq!(compiler_shape(&session), plan_shape(&session));
    }
}

#[test]
fn compiler_and_executor_agree() {
    for session in sessions() {
        assert_eq!(compiler_shape(&session), executor_shape(&session));
    }
}

#[test]
fn leaves_cover_the_panes() {
    for session in sessions() {
        for window in &session.windows {
            let plan = LayoutPlan::build(&window.layout, &session.vars).unwrap();
            let mut panes: Vec<usize> = plan.leaves().iter().map(|l| l.pane).collect();
            panes.sort();
            assert_eq!(panes, (0..plan.pane_count()).collect::<Vec<usize>>());
            for (i, split) in plan.splits().iter().enumerate() {
                assert_eq!(split.new, i + 1);
                assert!(split.parent < split.new);
            }
        }
    }
}
