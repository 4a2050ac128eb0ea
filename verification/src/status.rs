//! What is shown of the containers: the status table and the monitor's lines.
use crate::error::ErrorChain;
use crate::model::{group_views, views};
use crate::plan::{
    best_effort, fresh, needed, plan_best_effort, plan_needed, Plan, Planned, PlannedView, Step,
    StepView,
};
use crate::text::{
    concat3, decimal, join, joined, pad_left, pad_right, padded_left, padded_right, write_decimal,
};
use vstd::prelude::*;

verus! {

broadcast use group_views;

/// What the monitor says before its first look.
pub const MONITOR_GREETING: &'static str = "Monitoring COSMOS containers (Ctrl-C to stop)...";

/// How many seconds the monitor waits between two looks.
pub const MONITOR_PAUSE: u64 = 5;

/// The state of a container.
#[derive(Clone, Copy, PartialEq, Eq, Structural, Debug)]
pub enum RunState {
    Running,
    ExitedSuccess,
    ExitedFailure,
    Restarting,
    Paused,
    Unknown,
}

/// What is known of a container, as it is shown.
#[derive(Debug)]
pub struct ContainerStatus {
    pub service: String,
    pub tag: String,
    pub status: String,
    pub cpu: String,
    pub memory: String,
    pub ports: String,
    pub state: RunState,
    pub running: bool,
    pub healthy: bool,
}

/// Model of a [`ContainerStatus`].
pub struct ContainerStatusView {
    pub service: Seq<char>,
    pub tag: Seq<char>,
    pub status: Seq<char>,
    pub cpu: Seq<char>,
    pub memory: Seq<char>,
    pub ports: Seq<char>,
    pub state: RunState,
    pub running: bool,
    pub healthy: bool,
}

impl View for ContainerStatus {
    type V = ContainerStatusView;

    open spec fn view(&self) -> ContainerStatusView {
        ContainerStatusView {
            service: self.service@,
            tag: self.tag@,
            status: self.status@,
            cpu: self.cpu@,
            memory: self.memory@,
            ports: self.ports@,
            state: self.state,
            running: self.running,
            healthy: self.healthy,
        }
    }
}

/// All containers at one moment, with what they use together.
#[derive(Debug)]
pub struct Snapshot {
    pub containers: Vec<ContainerStatus>,
    pub cpu_total: String,
    pub memory_total: String,
}

/// The sign that stands for a state.
pub open spec fn glyph_of(state: RunState) -> Seq<char> {
    match state {
        RunState::Running => "●"@,
        RunState::ExitedSuccess => "○"@,
        RunState::ExitedFailure => "○"@,
        RunState::Restarting => "↻"@,
        RunState::Paused => "❚"@,
        RunState::Unknown => "?"@,
    }
}

impl RunState {
    /// The sign that stands for the state.
    pub fn glyph(self) -> (glyph: &'static str)
        ensures
            glyph@ == glyph_of(self),
    {
        match self {
            RunState::Running => "●",
            RunState::ExitedSuccess => "○",
            RunState::ExitedFailure => "○",
            RunState::Restarting => "↻",
            RunState::Paused => "❚",
            RunState::Unknown => "?",
        }
    }
}

/// How many of the containers run.
pub open spec fn running_count(containers: Seq<ContainerStatusView>) -> nat
    decreases containers.len(),
{
    if containers.len() == 0 {
        0
    } else {
        running_count(containers.drop_last()) + (if containers.last().running {
            1nat
        } else {
            0nat
        })
    }
}

/// The columns that the lines of containers and the line of totals share.
pub open spec fn columns(
    name: Seq<char>,
    tag: Seq<char>,
    status: Seq<char>,
    cpu: Seq<char>,
    memory: Seq<char>,
) -> Seq<char> {
    padded_right(name, 34) + " "@ + padded_right(tag, 14) + " "@ + padded_right(status, 24) + " "@
        + padded_left(cpu, 7) + " "@ + padded_left(memory, 12)
}

/// The line that counts the containers.
pub open spec fn count_line(containers: Seq<ContainerStatusView>) -> Seq<char> {
    decimal(running_count(containers)) + " of "@ + decimal(containers.len())
        + " containers running"@
}

/// The line of a container.
pub open spec fn container_line(container: ContainerStatusView) -> Seq<char> {
    "  "@ + glyph_of(container.state) + " "@ + columns(
        container.service,
        container.tag,
        container.status,
        container.cpu,
        container.memory,
    ) + "  "@ + container.ports
}

/// The line of totals.
pub open spec fn total_line(cpu: Seq<char>, memory: Seq<char>) -> Seq<char> {
    "    "@ + columns("Total"@, ""@, ""@, cpu, memory)
}

/// The lines of the containers.
pub open spec fn container_lines(containers: Seq<ContainerStatusView>) -> Seq<Seq<char>> {
    Seq::new(containers.len(), |i: int| container_line(containers[i]))
}

/// The status table: the count, a line for each container, and the totals where
/// there is a container.
pub open spec fn status_lines(
    containers: Seq<ContainerStatusView>,
    cpu: Seq<char>,
    memory: Seq<char>,
) -> Seq<Seq<char>> {
    seq![count_line(containers)] + container_lines(containers) + (if containers.len() == 0 {
        seq![]
    } else {
        seq![total_line(cpu, memory)]
    })
}

/// Printing the given lines.
pub open spec fn print_steps(lines: Seq<Seq<char>>) -> Seq<PlannedView> {
    Seq::new(lines.len(), |i: int| best_effort(StepView::Print(lines[i])))
}

/// Writes the columns of one line.
fn write_columns(line: &mut String, name: &str, tag: &str, status: &str, cpu: &str, memory: &str)
    ensures
        final(line)@ == old(line)@ + columns(name@, tag@, status@, cpu@, memory@),
{
    line.append(pad_right(name, 34).as_str());
    line.append(" ");
    line.append(pad_right(tag, 14).as_str());
    line.append(" ");
    line.append(pad_right(status, 24).as_str());
    line.append(" ");
    line.append(pad_left(cpu, 7).as_str());
    line.append(" ");
    line.append(pad_left(memory, 12).as_str());
    assert(line@ == old(line)@ + columns(name@, tag@, status@, cpu@, memory@));
}

/// Counts the containers that run.
fn count_running(containers: &Vec<ContainerStatus>) -> (count: usize)
    ensures
        count == running_count(views(containers@)),
{
    let mut count: usize = 0;
    let mut i: usize = 0;
    while i < containers.len()
        invariant
            i <= containers@.len(),
            count <= i,
            count == running_count(views(containers@).take(i as int)),
        decreases containers@.len() - i,
    {
        if containers[i].running {
            count += 1;
        }
        i += 1;
        assert(views(containers@).take(i as int).drop_last() == views(containers@).take(i - 1));
        assert(views(containers@).take(i as int).last() == containers@[i - 1]@);
    }
    assert(views(containers@).take(containers@.len() as int) == views(containers@));
    count
}

/// Writes the line of a container.
fn write_container(container: &ContainerStatus) -> (line: String)
    ensures
        line@ == container_line(container@),
{
    let mut line = concat3("  ", container.state.glyph(), " ");
    write_columns(
        &mut line,
        container.service.as_str(),
        container.tag.as_str(),
        container.status.as_str(),
        container.cpu.as_str(),
        container.memory.as_str(),
    );
    line.append("  ");
    line.append(container.ports.as_str());
    line
}

/// Plans to print a line.
fn plan_print(line: String) -> (planned: Planned)
    ensures
        planned@ == best_effort(StepView::Print(line@)),
{
    plan_best_effort(Step::Print(line))
}

/// Showing the status of the containers.
pub open spec fn status_steps(snapshot: Option<Snapshot>) -> Seq<PlannedView> {
    match snapshot {
        Some(now) => print_steps(
            status_lines(views(now.containers@), now.cpu_total@, now.memory_total@),
        ),
        None => seq![needed(StepView::ListContainers)],
    }
}

/// `status`: shows the status table; where the containers could not be asked,
/// Docker's own list.
pub fn status(snapshot: Option<Snapshot>) -> (plan: Plan)
    ensures
        plan@ == fresh(status_steps(snapshot)),
{
    let mut steps: Vec<Planned> = Vec::new();
    match snapshot {
        Some(now) => {
            let ghost all = views(now.containers@);
            let mut count = write_decimal(count_running(&now.containers));
            count.append(" of ");
            count.append(write_decimal(now.containers.len()).as_str());
            count.append(" containers running");
            steps.push(plan_print(count));
            assert(views(steps@) == print_steps(
                seq![count_line(all)] + container_lines(all).take(0),
            ));
            let mut i: usize = 0;
            while i < now.containers.len()
                invariant
                    i <= now.containers@.len(),
                    all == views(now.containers@),
                    views(steps@) == print_steps(
                        seq![count_line(all)] + container_lines(all).take(i as int),
                    ),
                decreases now.containers@.len() - i,
            {
                steps.push(plan_print(write_container(&now.containers[i])));
                i += 1;
                assert(print_steps(seq![count_line(all)] + container_lines(all).take(i as int))
                    == print_steps(
                    seq![count_line(all)] + container_lines(all).take(i - 1),
                ).push(best_effort(StepView::Print(container_line(all[i - 1])))));
            }
            assert(container_lines(all).take(all.len() as int) == container_lines(all));
            if now.containers.len() > 0 {
                let mut line = "    ".to_owned();
                write_columns(
                    &mut line,
                    "Total",
                    "",
                    "",
                    now.cpu_total.as_str(),
                    now.memory_total.as_str(),
                );
                steps.push(plan_print(line));
            }
            assert(views(steps@) == print_steps(
                status_lines(all, now.cpu_total@, now.memory_total@),
            ));
        },
        None => {
            steps.push(plan_needed(Step::ListContainers));
            assert(views(steps@) == seq![needed(StepView::ListContainers)]);
        },
    }
    Plan::new(steps)
}

/// The health of all containers at one moment.
#[derive(Debug)]
pub struct Health {
    pub containers: Vec<ContainerStatus>,
    /// The health of all containers in a few words.
    pub summary: String,
}

/// One turn of the monitor: the line to print, and the pause before the next turn.
#[derive(Debug)]
pub struct MonitorTurn {
    pub line: String,
    pub pause_seconds: u64,
}

/// The services of the containers that are not healthy, in order.
pub open spec fn unhealthy_services(containers: Seq<ContainerStatusView>) -> Seq<Seq<char>>
    decreases containers.len(),
{
    if containers.len() == 0 {
        seq![]
    } else {
        let front = unhealthy_services(containers.drop_last());
        if containers.last().healthy {
            front
        } else {
            front.push(containers.last().service)
        }
    }
}

/// What the monitor says of a look at the containers.
pub open spec fn monitor_line(look: Result<Health, ErrorChain>) -> Seq<char> {
    match look {
        Ok(health) => {
            let unhealthy = unhealthy_services(views(health.containers@));
            if unhealthy.len() == 0 {
                "[ok] "@ + health.summary@
            } else {
                "[warn] "@ + health.summary@ + " — unhealthy: "@ + joined(unhealthy, ", "@)
            }
        },
        Err(error) => "[error] "@ + error@[0],
    }
}

/// Collects the services of the containers that are not healthy.
fn collect_unhealthy(containers: &Vec<ContainerStatus>) -> (services: Vec<String>)
    ensures
        views(services@) == unhealthy_services(views(containers@)),
{
    let mut services: Vec<String> = Vec::new();
    let mut i: usize = 0;
    while i < containers.len()
        invariant
            i <= containers@.len(),
            views(services@) == unhealthy_services(views(containers@).take(i as int)),
        decreases containers@.len() - i,
    {
        if !containers[i].healthy {
            services.push(containers[i].service.clone());
        }
        i += 1;
        assert(views(containers@).take(i as int).drop_last() == views(containers@).take(i - 1));
        assert(views(containers@).take(i as int).last() == containers@[i - 1]@);
    }
    assert(views(containers@).take(containers@.len() as int) == views(containers@));
    services
}

/// One turn of `monitor`, which looks at the containers again and again and prints
/// a line each time.
pub fn monitor_loop(look: Result<Health, ErrorChain>) -> (turn: MonitorTurn)
    ensures
        turn.line@ == monitor_line(look),
        turn.pause_seconds == MONITOR_PAUSE,
{
    let line = match look {
        Ok(health) => {
            let services = collect_unhealthy(&health.containers);
            if services.len() == 0 {
                let mut line = "[ok] ".to_owned();
                line.append(health.summary.as_str());
                line
            } else {
                let mut line = concat3("[warn] ", health.summary.as_str(), " — unhealthy: ");
                line.append(join(&services, ", ").as_str());
                line
            }
        },
        Err(error) => {
            let mut line = "[error] ".to_owned();
            line.append(error.message.as_str());
            line
        },
    };
    MonitorTurn { line, pause_seconds: MONITOR_PAUSE }
}

} // verus!
