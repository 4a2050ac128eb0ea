//! What is shown of the containers.
use crate::error::ErrorChain;
use crate::laws::text::padding_fills_up_with_spaces;
use crate::model::views;
use crate::plan::{OnFailureView, StepView};
use crate::status::{
    columns, container_line, glyph_of, monitor_line, running_count, status_lines, status_steps,
    total_line, unhealthy_services, ContainerStatusView, Health, RunState, Snapshot,
};
use crate::text::{decimal, joined, padded_left, padded_right};
use vstd::prelude::*;

verus! {

/// The containers that run are counted.
pub proof fn running_containers_are_counted(containers: Seq<ContainerStatusView>)
    ensures
        running_count(containers) == containers.filter(
            |container: ContainerStatusView| container.running,
        ).len(),
        running_count(containers) <= containers.len(),
    decreases containers.len(),
{
    reveal(Seq::filter);
    if containers.len() > 0 {
        running_containers_are_counted(containers.drop_last());
    }
}

/// The table begins with how many containers run and how many there are, has then a line
/// for each container, in order, and ends with the totals where there is a container.
pub proof fn table_has_a_line_for_each(
    containers: Seq<ContainerStatusView>,
    cpu: Seq<char>,
    memory: Seq<char>,
    i: int,
)
    requires
        0 <= i < containers.len(),
    ensures
        status_lines(containers, cpu, memory).len() == containers.len() + 2,
        status_lines(containers, cpu, memory)[0] == decimal(running_count(containers)) + " of "@
            + decimal(containers.len()) + " containers running"@,
        status_lines(containers, cpu, memory)[i + 1] == container_line(containers[i]),
        status_lines(containers, cpu, memory).last() == total_line(cpu, memory),
        status_lines(Seq::empty(), cpu, memory) == seq![
            decimal(0) + " of "@ + decimal(0) + " containers running"@,
        ],
{
    assert(status_lines(Seq::empty(), cpu, memory) =~= seq![
        decimal(0) + " of "@ + decimal(0) + " containers running"@,
    ]);
}

/// A text stands in a line from column `at` on.
pub open spec fn stands_from(line: Seq<char>, at: int, text: Seq<char>) -> bool {
    0 <= at && at + text.len() <= line.len() && line.subrange(at, at + text.len()) == text
}

/// The width that a column takes which has at least `width` characters.
pub open spec fn taken(text: Seq<char>, width: int) -> int {
    if text.len() > width {
        text.len() as int
    } else {
        width
    }
}

/// A text stands in the column that holds it: at its left end where it is filled up on the
/// right, at its right end where it is filled up on the left.
proof fn text_stands_in_its_column(text: Seq<char>, width: nat)
    ensures
        padded_right(text, width).len() == taken(text, width as int),
        padded_left(text, width).len() == taken(text, width as int),
        stands_from(padded_right(text, width), 0, text),
        stands_from(padded_left(text, width), taken(text, width as int) - text.len(), text),
{
    padding_fills_up_with_spaces(text, width);
    let all = taken(text, width as int);
    assert(padded_right(text, width).subrange(0, text.len() as int) =~= padded_right(
        text,
        width,
    ).take(text.len() as int));
    assert(padded_left(text, width).subrange(all - text.len(), all) =~= padded_left(
        text,
        width,
    ).skip(all - text.len()));
}

/// A column, and what stands behind it and a space.
pub open spec fn beside(column: Seq<char>, rest: Seq<char>) -> Seq<char> {
    column + " "@ + rest
}

/// What stands in a column or in what is behind it stands in both together.
proof fn stands_beside(column: Seq<char>, rest: Seq<char>, at: int, text: Seq<char>)
    ensures
        beside(column, rest).len() == column.len() + 1 + rest.len(),
        stands_from(column, at, text) ==> stands_from(beside(column, rest), at, text),
        stands_from(rest, at, text) ==> stands_from(
            beside(column, rest),
            column.len() + 1 + at,
            text,
        ),
{
    reveal_strlit(" ");
    let all = beside(column, rest);
    let to = at + text.len();
    if stands_from(column, at, text) {
        assert(all.subrange(at, to) =~= column.subrange(at, to));
    }
    if stands_from(rest, at, text) {
        let from = column.len() + 1 + at;
        assert(all.subrange(from, from + text.len()) =~= rest.subrange(at, to));
    }
}

/// Columns can be put together from the right.
proof fn columns_go_together(
    a: Seq<char>,
    b: Seq<char>,
    c: Seq<char>,
    d: Seq<char>,
    e: Seq<char>,
)
    ensures
        a + " "@ + b + " "@ + c + " "@ + d + " "@ + e == beside(
            a,
            beside(b, beside(c, beside(d, e))),
        ),
{
    let s = " "@;
    let abc = a + s + b + s + c;
    assert(abc + s + d + s + e =~= abc + s + beside(d, e));
    let ab = a + s + b;
    let de = beside(d, e);
    assert(ab + s + c + s + de =~= ab + s + beside(c, de));
    let cde = beside(c, de);
    assert(a + s + b + s + cde =~= a + s + beside(b, cde));
}

/// The columns show the name, the tag, the status, the use of the processor and that of
/// memory, in this order, with a space between each two; the first three begin where
/// their columns do, and the others end where theirs do.
proof fn columns_stand_side_by_side(
    name: Seq<char>,
    tag: Seq<char>,
    status: Seq<char>,
    cpu: Seq<char>,
    memory: Seq<char>,
)
    ensures
        ({
            let line = columns(name, tag, status, cpu, memory);
            let second = taken(name, 34) + 1;
            let third = second + taken(tag, 14) + 1;
            let fourth = third + taken(status, 24) + 1;
            let fifth = fourth + taken(cpu, 7) + 1;
            let end = fifth + taken(memory, 12);
            &&& stands_from(line, 0, name)
            &&& stands_from(line, second, tag)
            &&& stands_from(line, third, status)
            &&& stands_from(line, fifth - 1 - cpu.len(), cpu)
            &&& stands_from(line, end - memory.len(), memory)
            &&& line.len() == end
        }),
{
    text_stands_in_its_column(name, 34);
    text_stands_in_its_column(tag, 14);
    text_stands_in_its_column(status, 24);
    text_stands_in_its_column(cpu, 7);
    text_stands_in_its_column(memory, 12);
    let a = padded_right(name, 34);
    let b = padded_right(tag, 14);
    let c = padded_right(status, 24);
    let d = padded_left(cpu, 7);
    let e = padded_left(memory, 12);
    columns_go_together(a, b, c, d, e);
    let de = beside(d, e);
    let cde = beside(c, de);
    let bcde = beside(b, cde);
    let at_cpu = taken(cpu, 7) - cpu.len();
    let at_memory = taken(memory, 12) - memory.len();
    stands_beside(d, e, at_cpu, cpu);
    stands_beside(d, e, at_memory, memory);
    stands_beside(c, de, 0, status);
    stands_beside(c, de, at_cpu, cpu);
    stands_beside(c, de, d.len() + 1 + at_memory, memory);
    stands_beside(b, cde, 0, tag);
    stands_beside(b, cde, 0, status);
    stands_beside(b, cde, c.len() + 1 + at_cpu, cpu);
    stands_beside(b, cde, c.len() + 1 + d.len() + 1 + at_memory, memory);
    stands_beside(a, bcde, 0, name);
    stands_beside(a, bcde, 0, tag);
    stands_beside(a, bcde, b.len() as int + 1, status);
    stands_beside(a, bcde, b.len() + 1 + c.len() + 1 + at_cpu, cpu);
    stands_beside(a, bcde, b.len() + 1 + c.len() + 1 + d.len() + 1 + at_memory, memory);
}

/// What stands in a part of a line stands in the line.
proof fn stands_in_the_whole(
    front: Seq<char>,
    line: Seq<char>,
    back: Seq<char>,
    at: int,
    text: Seq<char>,
)
    requires
        stands_from(line, at, text),
    ensures
        stands_from(front + line + back, front.len() + at, text),
{
    let all = front + line + back;
    let from = front.len() + at;
    assert(all.subrange(from, from + text.len()) =~= line.subrange(at, at + text.len()));
}

/// The line of a container shows its sign, and then its service, tag, status, use of the
/// processor and of memory, and its ports, each in its own column, which only a longer
/// text widens.
pub proof fn line_shows_the_container(container: ContainerStatusView)
    ensures
        ({
            let line = container_line(container);
            let tag = 4 + taken(container.service, 34) + 1;
            let status = tag + taken(container.tag, 14) + 1;
            let cpu = status + taken(container.status, 24) + 1 + taken(container.cpu, 7);
            let memory = cpu + 1 + taken(container.memory, 12);
            &&& line[0] == ' ' && line[1] == ' ' && line[3] == ' '
            &&& stands_from(line, 2, glyph_of(container.state))
            &&& stands_from(line, 4, container.service)
            &&& stands_from(line, tag, container.tag)
            &&& stands_from(line, status, container.status)
            &&& stands_from(line, cpu - container.cpu.len(), container.cpu)
            &&& stands_from(line, memory - container.memory.len(), container.memory)
            &&& stands_from(line, memory + 2, container.ports)
            &&& line.len() == memory + 2 + container.ports.len()
        }),
{
    reveal_strlit(" ");
    reveal_strlit("  ");
    signs_are_single_characters(container.state);
    let line = container_line(container);
    let middle = columns(
        container.service,
        container.tag,
        container.status,
        container.cpu,
        container.memory,
    );
    columns_stand_side_by_side(
        container.service,
        container.tag,
        container.status,
        container.cpu,
        container.memory,
    );
    let front = "  "@ + glyph_of(container.state) + " "@;
    let back = "  "@ + container.ports;
    assert(line =~= front + middle + back);
    let tag = taken(container.service, 34) + 1;
    let status = tag + taken(container.tag, 14) + 1;
    let cpu = status + taken(container.status, 24) + 1 + taken(container.cpu, 7);
    let memory = cpu + 1 + taken(container.memory, 12);
    stands_in_the_whole(front, middle, back, 0, container.service);
    stands_in_the_whole(front, middle, back, tag, container.tag);
    stands_in_the_whole(front, middle, back, status, container.status);
    stands_in_the_whole(front, middle, back, cpu - container.cpu.len(), container.cpu);
    stands_in_the_whole(front, middle, back, memory - container.memory.len(), container.memory);
    assert(line.subrange(2, 3) =~= glyph_of(container.state));
    assert(line.subrange(memory + 6, memory + 6 + container.ports.len()) =~= container.ports);
}

/// A state is shown by a single character, and two states by the same only where the
/// container has exited in both.
pub proof fn signs_are_single_characters(state: RunState)
    ensures
        glyph_of(state).len() == 1,
        forall|other: RunState|
            #[trigger] glyph_of(other) == glyph_of(state) ==> other == state || ((other
                == RunState::ExitedSuccess || other == RunState::ExitedFailure) && (state
                == RunState::ExitedSuccess || state == RunState::ExitedFailure)),
        glyph_of(RunState::ExitedSuccess) == glyph_of(RunState::ExitedFailure),
{
    reveal_strlit("●");
    reveal_strlit("○");
    reveal_strlit("↻");
    reveal_strlit("❚");
    reveal_strlit("?");
    assert forall|other: RunState| #[trigger] glyph_of(other) == glyph_of(state) implies other
        == state || ((other == RunState::ExitedSuccess || other == RunState::ExitedFailure) && (
    state == RunState::ExitedSuccess || state == RunState::ExitedFailure)) by {
        assert(glyph_of(other)[0] == glyph_of(state)[0]);
    }
}

/// The line of totals shows, under those of the containers, what they use together.
pub proof fn total_stands_under_the_columns(cpu: Seq<char>, memory: Seq<char>)
    ensures
        ({
            let line = total_line(cpu, memory);
            let first = 79 + taken(cpu, 7);
            let second = first + 1 + taken(memory, 12);
            &&& line[0] == ' ' && line[1] == ' ' && line[2] == ' ' && line[3] == ' '
            &&& stands_from(line, 4, "Total"@)
            &&& stands_from(line, first - cpu.len(), cpu)
            &&& stands_from(line, second - memory.len(), memory)
            &&& line.len() == second
        }),
{
    reveal_strlit("Total");
    reveal_strlit("    ");
    reveal_strlit("");
    let none = Seq::<char>::empty();
    assert(""@ =~= none);
    let middle = columns("Total"@, ""@, ""@, cpu, memory);
    columns_stand_side_by_side("Total"@, ""@, ""@, cpu, memory);
    let line = total_line(cpu, memory);
    assert(line =~= "    "@ + middle + none);
    let first = 75 + taken(cpu, 7);
    let second = first + 1 + taken(memory, 12);
    stands_in_the_whole("    "@, middle, none, 0, "Total"@);
    stands_in_the_whole("    "@, middle, none, first - cpu.len(), cpu);
    stands_in_the_whole("    "@, middle, none, second - memory.len(), memory);
}

/// The status is printed line by line, and where the containers could not be asked Docker
/// lists them.
pub proof fn status_is_printed(snapshot: Option<Snapshot>, i: int)
    ensures
        snapshot is None ==> status_steps(snapshot).len() == 1 && status_steps(snapshot)[0].step
            is ListContainers && status_steps(snapshot)[0].on_failure is Stop,
        snapshot is Some ==> {
            let now = snapshot->0;
            let lines = status_lines(views(now.containers@), now.cpu_total@, now.memory_total@);
            &&& status_steps(snapshot).len() == lines.len()
            &&& 0 <= i < lines.len() ==> status_steps(snapshot)[i].step == StepView::Print(
                lines[i],
            ) && status_steps(snapshot)[i].on_failure == OnFailureView::Skip(0)
        },
{
}

/// The services that are named are those of the containers that are not healthy, in order.
pub proof fn unhealthy_containers_are_named(containers: Seq<ContainerStatusView>)
    ensures
        ({
            let sick = containers.filter(|container: ContainerStatusView| !container.healthy);
            &&& unhealthy_services(containers).len() == sick.len()
            &&& forall|i: int|
                0 <= i < sick.len() ==> #[trigger] unhealthy_services(containers)[i]
                    == sick[i].service
        }),
    decreases containers.len(),
{
    reveal(Seq::filter);
    if containers.len() > 0 {
        let front = containers.drop_last();
        unhealthy_containers_are_named(front);
        let sick = containers.filter(|container: ContainerStatusView| !container.healthy);
        let before = front.filter(|container: ContainerStatusView| !container.healthy);
        assert forall|i: int| 0 <= i < sick.len() implies #[trigger] unhealthy_services(
            containers,
        )[i] == sick[i].service by {
            if i < before.len() {
                assert(sick[i] == before[i]);
                assert(unhealthy_services(front)[i] == before[i].service);
            }
        }
    }
}

/// The monitor says that all is well exactly where every container is healthy, names the
/// others where one is not, and names the error where it could not look.
pub proof fn monitor_says_how_it_is(health: Health, error: ErrorChain)
    ensures
        ({
            let containers = views(health.containers@);
            let line = monitor_line(Ok(health));
            let well = forall|i: int|
                0 <= i < containers.len() ==> (#[trigger] containers[i]).healthy;
            &&& well ==> line == "[ok] "@ + health.summary@
            &&& !well ==> line == "[warn] "@ + health.summary@ + " — unhealthy: "@ + joined(
                unhealthy_services(containers),
                ", "@,
            )
        }),
        monitor_line(Err(error)) == "[error] "@ + error.message@,
{
    let containers = views(health.containers@);
    healthy_containers_are_not_named(containers);
}

/// No service is named exactly where every container is healthy.
proof fn healthy_containers_are_not_named(containers: Seq<ContainerStatusView>)
    ensures
        unhealthy_services(containers).len() == 0 <==> forall|i: int|
            0 <= i < containers.len() ==> (#[trigger] containers[i]).healthy,
    decreases containers.len(),
{
    if containers.len() > 0 {
        let front = containers.drop_last();
        healthy_containers_are_not_named(front);
        if unhealthy_services(containers).len() == 0 {
            assert forall|i: int| 0 <= i < containers.len() implies (
            #[trigger] containers[i]).healthy by {
                if i < front.len() {
                    assert(front[i] == containers[i]);
                }
            }
        }
        if forall|i: int| 0 <= i < containers.len() ==> (#[trigger] containers[i]).healthy {
            assert forall|i: int| 0 <= i < front.len() implies (#[trigger] front[i]).healthy by {
                assert(front[i] == containers[i]);
            }
            assert(containers[containers.len() - 1].healthy);
        }
    }
}

} // verus!
