//! A hand-assembled instance tree: one schema, one model, seven fields,
//! handed to the default pipeline.

use vstd::prelude::*;

use crate::PluginError;
use crate::builder::{Backend, Model, Schema};
use crate::pipeline::{build, lemma_clean_tree};

verus! {

/// Assembles a small scheduling backend and runs the default pipeline
/// over it. Every field name is clean, so the build always succeeds.
pub fn demo() -> (r: Result<(), PluginError>)
    ensures
        r is Ok,
{
    proof {
        reveal_strlit("discordbot");
        reveal_strlit("scheduled_alarm");
        reveal_strlit("id");
        reveal_strlit("requester_discord_id");
        reveal_strlit("channel_id");
        reveal_strlit("hour_of_day");
        reveal_strlit("day_of_week");
        reveal_strlit("created_at");
        reveal_strlit("message");
    }
    let mut alarm = Model::new("scheduled_alarm");

    let f = alarm.new_int("id");
    alarm.describe_field(f, "desc");
    let f = alarm.new_int("requester_discord_id");
    alarm.describe_field(f, "desc");
    let f = alarm.new_int("channel_id");
    alarm.describe_field(f, "desc");
    let f = alarm.new_int("hour_of_day");
    alarm.describe_field(f, "desc");
    let f = alarm.new_int("day_of_week");
    alarm.describe_field(f, "desc");
    let f = alarm.new_datetime("created_at");
    alarm.describe_field(f, "desc");
    let f = alarm.new_string("message");
    alarm.describe_field(f, "desc");

    let mut schema = Schema::new("discordbot");
    schema.push_model(alarm);

    let mut backend = Backend::new();
    backend.push_schema(schema);

    proof {
        let bv = backend@;
        assert(bv.schemas.len() == 1);
        let mv = bv.schemas[0].models[0];
        assert(bv.schemas[0].models.len() == 1);
        assert(mv.fields.len() == 7);
        assert(mv.fields[0].name == "id"@);
        assert(mv.fields[1].name == "requester_discord_id"@);
        assert(mv.fields[2].name == "channel_id"@);
        assert(mv.fields[3].name == "hour_of_day"@);
        assert(mv.fields[4].name == "day_of_week"@);
        assert(mv.fields[5].name == "created_at"@);
        assert(mv.fields[6].name == "message"@);
        lemma_clean_tree(bv);
    }
    build(backend)
}

} // verus!
