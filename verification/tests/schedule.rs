use hikari::schedule::{topological_order, ScheduleBuilder, ScheduleError, Task};
use std::cell::RefCell;
use std::rc::Rc;

type Job = Box<dyn FnMut()>;

#[test]
fn stage_build() {
    let x = Rc::new(RefCell::new(69_f32));
    let y = Rc::new(RefCell::new(420));
    let s = Rc::new(RefCell::new("hello there"));
    let state = Rc::new(RefCell::new(false));

    let mut task_schedule: ScheduleBuilder<Job> = ScheduleBuilder::new();
    task_schedule.create_stage("Update");

    let (ux, uy) = (x.clone(), y.clone());
    let update_stage = Task::new("Update", Box::new(move || {
        println!("{:?} {}", *ux.borrow(), *uy.borrow());
    }) as Job);
    task_schedule.add_task("Update", update_stage);

    let (ry, rs, rstate) = (y.clone(), s.clone(), state.clone());
    let render_stage = Task::new("Render", Box::new(move || {
        println!("{} {} {}", *ry.borrow(), *rs.borrow(), *rstate.borrow());
        let flipped = !*rstate.borrow();
        *rstate.borrow_mut() = flipped;
    }) as Job);
    task_schedule.add_task("Update", render_stage);

    let schedule = match task_schedule.build() {
        Ok(schedule) => schedule,
        Err(e) => panic!("{:?}", e),
    };
    let mut functions = schedule.into_functions();
    assert_eq!(functions.len(), 2);

    for _ in 0..50 {
        for (_name, f) in functions.iter_mut() {
            f();
        }
    }
    assert_eq!(*state.borrow(), false);
}

fn position(names: &[String], name: &str) -> usize {
    names.iter().position(|n| n == name).unwrap()
}

#[test]
fn constraints_order_the_tasks_of_a_stage() {
    let mut builder: ScheduleBuilder<u32> = ScheduleBuilder::new();
    builder.create_stage("Update");
    builder.create_stage("Render");
    builder.add_task("Update", Task::new("physics", 1).after("input"));
    builder.add_task("Update", Task::new("input", 2));
    builder.add_task("Update", Task::new("audio", 3).before("physics"));
    builder.add_task("Render", Task::new("draw", 4).after("cull"));
    builder.add_task("Render", Task::new("cull", 5));
    let functions = builder.build().ok().unwrap().into_functions();
    let names: Vec<String> = functions.iter().map(|(n, _)| n.clone()).collect();
    assert_eq!(names.len(), 5);
    assert!(position(&names, "input") < position(&names, "physics"));
    assert!(position(&names, "audio") < position(&names, "physics"));
    assert!(position(&names, "cull") < position(&names, "draw"));
    assert!(position(&names, "physics") < position(&names, "cull"));
    let payload_of_draw = functions.iter().find(|(n, _)| n == "draw").unwrap().1;
    assert_eq!(payload_of_draw, 4);
}

#[test]
fn a_task_before_and_after_the_same_task_is_refused() {
    let mut builder: ScheduleBuilder<()> = ScheduleBuilder::new();
    builder.create_stage("Update");
    builder.add_task("Update", Task::new("a", ()));
    builder.add_task("Update", Task::new("b", ()).before("a").after("a"));
    assert!(matches!(builder.build(), Err(ScheduleError::TaskBeforeAndAfter)));
}

#[test]
fn duplicate_task_names_are_refused() {
    let mut builder: ScheduleBuilder<()> = ScheduleBuilder::new();
    builder.create_stage("Update");
    builder.create_stage("Render");
    builder.add_task("Update", Task::new("a", ()));
    builder.add_task("Render", Task::new("x", ()));
    builder.add_task("Render", Task::new("x", ()));
    match builder.build() {
        Err(ScheduleError::DuplicateTaskName(task, stage)) => {
            assert_eq!(task, "x");
            assert_eq!(stage, "Render");
        }
        _ => panic!("expected a duplicate task name"),
    }
}

#[test]
fn stages_are_found_by_name() {
    let mut builder: ScheduleBuilder<()> = ScheduleBuilder::new();
    assert!(!builder.has_stage("Update"));
    builder.create_stage("Update");
    assert!(builder.has_stage("Update"));
    assert!(!builder.has_stage("Render"));
}

#[test]
fn topological_order_respects_every_edge() {
    let adj = vec![vec![2], vec![0, 2], vec![], vec![1]];
    let order = topological_order(&adj);
    assert_eq!(order.len(), 4);
    let pos = |n: usize| order.iter().position(|&x| x == n).unwrap();
    for (u, succ) in adj.iter().enumerate() {
        for &v in succ {
            assert!(pos(u) < pos(v));
        }
    }
}

#[test]
fn topological_order_lists_every_node_of_a_cycle_once() {
    let adj = vec![vec![1], vec![2], vec![0]];
    let mut order = topological_order(&adj);
    order.sort();
    assert_eq!(order, vec![0, 1, 2]);
}
