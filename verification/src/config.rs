//! The run's configuration: work length, break length and iteration count,
//! built from the three raw answer lines and validated on the way in.

use vstd::prelude::*;

use crate::parse::{parse_ok, parse_u32, parsed_value};

verus! {

#[derive(Debug)]
pub struct Config {
    work_session_duration: u32,
    break_session_duration: u32,
    number_of_pomodoro_iterations: u32,
}

impl Config {
    /// Minutes of one work session.
    pub closed spec fn spec_work(&self) -> u32 {
        self.work_session_duration
    }

    /// Minutes of one break session.
    pub closed spec fn spec_break(&self) -> u32 {
        self.break_session_duration
    }

    /// How many work/break iterations the run performs.
    pub closed spec fn spec_iterations(&self) -> u32 {
        self.number_of_pomodoro_iterations
    }

    /// Validate the three raw answer lines and assemble the configuration.
    /// Each answer is checked in prompt order, and the first ill-formed one
    /// decides the error message; a configuration is produced exactly when
    /// all three answers are well-formed numbers.
    pub fn build(
        work_session_duration: &str,
        break_session_duration: &str,
        number_of_pomodoro_iterations: &str,
    ) -> (r: Result<Config, &'static str>)
        ensures
            r is Ok <==> parse_ok(work_session_duration@) && parse_ok(break_session_duration@)
                && parse_ok(number_of_pomodoro_iterations@),
            r matches Ok(c) ==> c.spec_work() as nat == parsed_value(work_session_duration@)
                && c.spec_break() as nat == parsed_value(break_session_duration@)
                && c.spec_iterations() as nat == parsed_value(number_of_pomodoro_iterations@),
            !parse_ok(work_session_duration@) ==> (r matches Err(e) && e@
                == "Invalid work session duration"@),
            parse_ok(work_session_duration@) && !parse_ok(break_session_duration@) ==> (
            r matches Err(e) && e@ == "Invalid break session duration"@),
            parse_ok(work_session_duration@) && parse_ok(break_session_duration@) && !parse_ok(
                number_of_pomodoro_iterations@,
            ) ==> (r matches Err(e) && e@ == "Invalid number of pomodoro iterations"@),
    {
        let work_session_duration: u32 = match parse_u32(work_session_duration) {
            Some(num) => num,
            None => {
                return Err("Invalid work session duration");
            },
        };

        let break_session_duration: u32 = match parse_u32(break_session_duration) {
            Some(num) => num,
            None => {
                return Err("Invalid break session duration");
            },
        };

        let number_of_pomodoro_iterations: u32 = match parse_u32(number_of_pomodoro_iterations) {
            Some(num) => num,
            None => {
                return Err("Invalid number of pomodoro iterations");
            },
        };

        Ok(
            Config {
                work_session_duration,
                break_session_duration,
                number_of_pomodoro_iterations,
            },
        )
    }

    pub fn get_work_session_duration(&self) -> (r: u32)
        ensures
            r == self.spec_work(),
    {
        self.work_session_duration
    }

    pub fn get_break_session_duration(&self) -> (r: u32)
        ensures
            r == self.spec_break(),
    {
        self.break_session_duration
    }

    pub fn get_number_of_pomodoro_iterations(&self) -> (r: u32)
        ensures
            r == self.spec_iterations(),
    {
        self.number_of_pomodoro_iterations
    }
}

} // verus!
