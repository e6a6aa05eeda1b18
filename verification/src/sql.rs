//! The storage sink's statements: the fixed table schemas, the bulk-insert
//! statement built from buffered rows, and the database management texts.
//! The surrounding process runs them; everything here is exact text.
use vstd::prelude::*;

use crate::records::{CounterUnit, FlowUnit, TimerUnit};
use crate::text::{dec_seq, dec_seq_i64, i64_to_string, push_char, u64_to_string};

verus! {

/// A record kind that lands in one fixed table: its creation statement,
/// its bulk-insert prefix, and each record's rendering as one row tuple.
pub trait SqlTable {
    /// The text of one row of this record, as it stands in the insert
    /// statement.
    spec fn spec_row(&self) -> Seq<char>;

    /// The bulk-insert statement prefix, as text.
    spec fn spec_insert_prefix() -> Seq<char>;

    /// The table-creation statement, as text.
    spec fn spec_create_table() -> Seq<char>;

    /// The table-creation statement.
    fn new_sql_table_opt() -> (r: &'static str)
        ensures
            r@ == Self::spec_create_table(),
    ;

    /// The bulk-insert statement prefix, up to `VALUES`.
    fn multi_insert_table_opt() -> (r: &'static str)
        ensures
            r@ == Self::spec_insert_prefix(),
    ;

    /// One row tuple of this record.
    fn to_param_value_str(&self) -> (r: String)
        ensures
            r@ == self.spec_row(),
    ;
}

/// The row text of a counter record.
pub open spec fn spec_counter_row(u: CounterUnit) -> Seq<char> {
    seq!['('] + dec_seq(u.spec_ts() as nat) + ",\""@ + u.spec_ip().spec_text() + "\",\""@
        + u.spec_category() + "\",\""@ + u.spec_tag() + "\","@ + dec_seq(
        u.spec_count() as nat) + seq![','] + dec_seq_i64(u.spec_value() as int)
        + seq![')']
}

impl SqlTable for CounterUnit {
    open spec fn spec_row(&self) -> Seq<char> {
        spec_counter_row(*self)
    }

    open spec fn spec_insert_prefix() -> Seq<char> {
        "INSERT INTO metrics_counter ( send_timestamp, public_ip, category, tag, count, value ) VALUES"@
    }

    open spec fn spec_create_table() -> Seq<char> {
        "CREATE TABLE metrics_counter( send_timestamp INT(10) DEFAULT 0, public_ip VARCHAR(40) DEFAULT \"\", category VARCHAR(30) DEFAULT \"\", tag VARCHAR(100) DEFAULT \"\", count BIGINT(20) DEFAULT 0, value BIGINT(20) DEFAULT 0, INDEX(category,tag,public_ip,send_timestamp) )ENGINE = InnoDB DEFAULT CHARSET = utf8;"@
    }

    fn new_sql_table_opt() -> (r: &'static str) {
        "CREATE TABLE metrics_counter( send_timestamp INT(10) DEFAULT 0, public_ip VARCHAR(40) DEFAULT \"\", category VARCHAR(30) DEFAULT \"\", tag VARCHAR(100) DEFAULT \"\", count BIGINT(20) DEFAULT 0, value BIGINT(20) DEFAULT 0, INDEX(category,tag,public_ip,send_timestamp) )ENGINE = InnoDB DEFAULT CHARSET = utf8;"
    }

    fn multi_insert_table_opt() -> (r: &'static str) {
        "INSERT INTO metrics_counter ( send_timestamp, public_ip, category, tag, count, value ) VALUES"
    }

    fn to_param_value_str(&self) -> (r: String) {
        let mut s: String = String::new();
        push_char(&mut s, '(');
        let ts: String = u64_to_string(self.send_timestamp().data() as u64);
        s.append(ts.as_str());
        s.append(",\"");
        let ip: String = self.public_ip().to_string();
        s.append(ip.as_str());
        s.append("\",\"");
        s.append(self.category());
        s.append("\",\"");
        s.append(self.tag());
        s.append("\",");
        let cnt: String = u64_to_string(self.count());
        s.append(cnt.as_str());
        push_char(&mut s, ',');
        let val: String = i64_to_string(self.value());
        s.append(val.as_str());
        push_char(&mut s, ')');
        proof {
            assert(s@ =~= spec_counter_row(*self));
        }
        s
    }
}

/// The row text of a timer record.
pub open spec fn spec_timer_row(u: TimerUnit) -> Seq<char> {
    seq!['('] + dec_seq(u.spec_ts() as nat) + ",\""@ + u.spec_ip().spec_text() + "\",\""@
        + u.spec_category() + "\",\""@ + u.spec_tag() + "\","@ + dec_seq(
        u.spec_count() as nat) + seq![','] + dec_seq(u.spec_max() as nat) + seq![',']
        + dec_seq(u.spec_min() as nat) + seq![','] + dec_seq(u.spec_avg() as nat)
        + seq![')']
}

impl SqlTable for TimerUnit {
    open spec fn spec_row(&self) -> Seq<char> {
        spec_timer_row(*self)
    }

    open spec fn spec_insert_prefix() -> Seq<char> {
        "INSERT INTO metrics_timer ( send_timestamp, public_ip, category, tag, count, max_time, min_time, avg_time ) VALUES"@
    }

    open spec fn spec_create_table() -> Seq<char> {
        "CREATE TABLE metrics_timer( send_timestamp INT(10) DEFAULT 0, public_ip VARCHAR(40) DEFAULT \"\", category VARCHAR(30) DEFAULT \"\", tag VARCHAR(100) DEFAULT \"\", count BIGINT(20) DEFAULT 0, max_time BIGINT(20) DEFAULT 0, min_time BIGINT(20) DEFAULT 0, avg_time BIGINT(20) DEFAULT 0, INDEX(category,tag,public_ip,send_timestamp) )ENGINE = InnoDB DEFAULT CHARSET = utf8;"@
    }

    fn new_sql_table_opt() -> (r: &'static str) {
        "CREATE TABLE metrics_timer( send_timestamp INT(10) DEFAULT 0, public_ip VARCHAR(40) DEFAULT \"\", category VARCHAR(30) DEFAULT \"\", tag VARCHAR(100) DEFAULT \"\", count BIGINT(20) DEFAULT 0, max_time BIGINT(20) DEFAULT 0, min_time BIGINT(20) DEFAULT 0, avg_time BIGINT(20) DEFAULT 0, INDEX(category,tag,public_ip,send_timestamp) )ENGINE = InnoDB DEFAULT CHARSET = utf8;"
    }

    fn multi_insert_table_opt() -> (r: &'static str) {
        "INSERT INTO metrics_timer ( send_timestamp, public_ip, category, tag, count, max_time, min_time, avg_time ) VALUES"
    }

    fn to_param_value_str(&self) -> (r: String) {
        let mut s: String = String::new();
        push_char(&mut s, '(');
        let ts: String = u64_to_string(self.send_timestamp().data() as u64);
        s.append(ts.as_str());
        s.append(",\"");
        let ip: String = self.public_ip().to_string();
        s.append(ip.as_str());
        s.append("\",\"");
        s.append(self.category());
        s.append("\",\"");
        s.append(self.tag());
        s.append("\",");
        let cnt: String = u64_to_string(self.count());
        s.append(cnt.as_str());
        push_char(&mut s, ',');
        let mx: String = u64_to_string(self.max_time());
        s.append(mx.as_str());
        push_char(&mut s, ',');
        let mn: String = u64_to_string(self.min_time());
        s.append(mn.as_str());
        push_char(&mut s, ',');
        let av: String = u64_to_string(self.avg_time());
        s.append(av.as_str());
        push_char(&mut s, ')');
        proof {
            assert(s@ =~= spec_timer_row(*self));
        }
        s
    }
}

/// The row text of a flow record; the throughput text stands as it was
/// captured.
pub open spec fn spec_flow_row(u: FlowUnit) -> Seq<char> {
    seq!['('] + dec_seq(u.spec_ts() as nat) + ",\""@ + u.spec_ip().spec_text() + "\",\""@
        + u.spec_category() + "\",\""@ + u.spec_tag() + "\","@ + dec_seq(
        u.spec_count() as nat) + seq![','] + dec_seq_i64(u.spec_max() as int) + seq![',']
        + dec_seq_i64(u.spec_min() as int) + seq![','] + dec_seq_i64(u.spec_sum() as int)
        + seq![','] + dec_seq_i64(u.spec_avg() as int) + seq![','] + dec_seq_i64(
        u.spec_tps_flow() as int) + seq![','] + u.spec_tps() + seq![')']
}

impl SqlTable for FlowUnit {
    open spec fn spec_row(&self) -> Seq<char> {
        spec_flow_row(*self)
    }

    open spec fn spec_insert_prefix() -> Seq<char> {
        "INSERT INTO metrics_flow ( send_timestamp, public_ip, category, tag, count, max_flow, min_flow, sum_flow, avg_flow, tps_flow, tps ) VALUES"@
    }

    open spec fn spec_create_table() -> Seq<char> {
        "CREATE TABLE metrics_flow( send_timestamp INT(10) DEFAULT 0, public_ip VARCHAR(40) DEFAULT \"\", category VARCHAR(30) DEFAULT \"\", tag VARCHAR(100) DEFAULT \"\", count BIGINT(20) DEFAULT 0, max_flow BIGINT(20) DEFAULT 0, min_flow BIGINT(20) DEFAULT 0, sum_flow BIGINT(20) DEFAULT 0, avg_flow BIGINT(20) DEFAULT 0, tps_flow BIGINT(20) DEFAULT 0, tps DOUBLE DEFAULT 0.00, INDEX(category,tag,public_ip,send_timestamp) )ENGINE = InnoDB DEFAULT CHARSET = utf8;"@
    }

    fn new_sql_table_opt() -> (r: &'static str) {
        "CREATE TABLE metrics_flow( send_timestamp INT(10) DEFAULT 0, public_ip VARCHAR(40) DEFAULT \"\", category VARCHAR(30) DEFAULT \"\", tag VARCHAR(100) DEFAULT \"\", count BIGINT(20) DEFAULT 0, max_flow BIGINT(20) DEFAULT 0, min_flow BIGINT(20) DEFAULT 0, sum_flow BIGINT(20) DEFAULT 0, avg_flow BIGINT(20) DEFAULT 0, tps_flow BIGINT(20) DEFAULT 0, tps DOUBLE DEFAULT 0.00, INDEX(category,tag,public_ip,send_timestamp) )ENGINE = InnoDB DEFAULT CHARSET = utf8;"
    }

    fn multi_insert_table_opt() -> (r: &'static str) {
        "INSERT INTO metrics_flow ( send_timestamp, public_ip, category, tag, count, max_flow, min_flow, sum_flow, avg_flow, tps_flow, tps ) VALUES"
    }

    fn to_param_value_str(&self) -> (r: String) {
        let mut s: String = String::new();
        push_char(&mut s, '(');
        let ts: String = u64_to_string(self.send_timestamp().data() as u64);
        s.append(ts.as_str());
        s.append(",\"");
        let ip: String = self.public_ip().to_string();
        s.append(ip.as_str());
        s.append("\",\"");
        s.append(self.category());
        s.append("\",\"");
        s.append(self.tag());
        s.append("\",");
        let cnt: String = u64_to_string(self.count());
        s.append(cnt.as_str());
        push_char(&mut s, ',');
        let mx: String = i64_to_string(self.max_flow());
        s.append(mx.as_str());
        push_char(&mut s, ',');
        let mn: String = i64_to_string(self.min_flow());
        s.append(mn.as_str());
        push_char(&mut s, ',');
        let sm: String = i64_to_string(self.sum_flow());
        s.append(sm.as_str());
        push_char(&mut s, ',');
        let av: String = i64_to_string(self.avg_flow());
        s.append(av.as_str());
        push_char(&mut s, ',');
        let tf: String = i64_to_string(self.tps_flow());
        s.append(tf.as_str());
        push_char(&mut s, ',');
        s.append(self.tps());
        push_char(&mut s, ')');
        proof {
            assert(s@ =~= spec_flow_row(*self));
        }
        s
    }
}

/// The joined row tuples of a batch, separated by comma-space.
pub open spec fn spec_rows_joined<T: SqlTable>(rs: Seq<T>) -> Seq<char>
    decreases rs.len(),
{
    if rs.len() == 0 {
        Seq::empty()
    } else if rs.len() == 1 {
        rs[0].spec_row()
    } else {
        rs[0].spec_row() + ", "@ + spec_rows_joined(rs.subrange(1, rs.len() as int))
    }
}

/// The whole bulk-insert statement for a non-empty batch: the insert
/// prefix, a space, and the joined row tuples.
pub fn build_insert_statement<T: SqlTable>(rows: &Vec<T>) -> (r: Option<String>)
    ensures
        r is Some <==> rows@.len() > 0,
        r matches Some(s) ==> s@ == T::spec_insert_prefix() + seq![' ']
            + spec_rows_joined(rows@),
{
    if rows.len() == 0 {
        return None;
    }
    let mut s: String = String::from_str(T::multi_insert_table_opt());
    push_char(&mut s, ' ');
    let mut i: usize = 0;
    while i < rows.len()
        invariant
            0 < rows@.len(),
            i <= rows@.len(),
            i > 0 ==> s@ == T::spec_insert_prefix() + seq![' '] + spec_rows_joined(
                rows@.subrange(0, i as int)) + (if i < rows@.len() { ", "@ } else {
                Seq::empty()
            }),
            i == 0 ==> s@ == T::spec_insert_prefix() + seq![' '],
        decreases rows@.len() - i,
    {
        let row: String = rows[i].to_param_value_str();
        s.append(row.as_str());
        if i + 1 < rows.len() {
            s.append(", ");
        }
        i = i + 1;
        proof {
            lemma_rows_joined_take(rows@, i as int);
            if i < rows@.len() {
                assert(s@ =~= T::spec_insert_prefix() + seq![' ']
                    + spec_rows_joined(rows@.subrange(0, i as int)) + ", "@);
            } else {
                assert(s@ =~= T::spec_insert_prefix() + seq![' ']
                    + spec_rows_joined(rows@.subrange(0, i as int)));
            }
        }
    }
    proof {
        assert(rows@.subrange(0, rows@.len() as int) =~= rows@);
    }
    Some(s)
}

/// One more row extends a joined batch by a separator and the row.
proof fn lemma_rows_joined_take<T: SqlTable>(rs: Seq<T>, i: int)
    requires
        0 < i <= rs.len(),
    ensures
        i == 1 ==> spec_rows_joined(rs.subrange(0, 1)) == rs[0].spec_row(),
        i > 1 ==> spec_rows_joined(rs.subrange(0, i)) == spec_rows_joined(rs.subrange(
            0, i - 1)) + ", "@ + rs[i - 1].spec_row(),
    decreases i,
{
    if i == 1 {
        assert(rs.subrange(0, 1).len() == 1);
        assert(rs.subrange(0, 1)[0] == rs[0]);
    } else {
        lemma_rows_joined_take(rs.subrange(1, rs.len() as int), i - 1);
        let a = rs.subrange(0, i);
        assert(a[0] == rs[0]);
        assert(a.subrange(1, a.len() as int) =~= rs.subrange(1, rs.len() as int).subrange(
            0, i - 1));
        let b = rs.subrange(0, i - 1);
        assert(b[0] == rs[0]);
        if i - 1 == 1 {
            assert(b.len() == 1);
            assert(rs.subrange(1, rs.len() as int).subrange(0, 1)[0] == rs[1]);
            assert(spec_rows_joined(a) == rs[0].spec_row() + ", "@ + spec_rows_joined(
                a.subrange(1, a.len() as int)));
            assert(spec_rows_joined(a.subrange(1, a.len() as int)) == rs[1].spec_row());
            assert(spec_rows_joined(b) == rs[0].spec_row());
            assert(spec_rows_joined(a) =~= spec_rows_joined(b) + ", "@
                + rs[i - 1].spec_row());
        } else {
            assert(b.subrange(1, b.len() as int) =~= rs.subrange(1,
                rs.len() as int).subrange(0, i - 2));
            assert(rs.subrange(1, rs.len() as int)[i - 2] == rs[i - 1]);
            assert(spec_rows_joined(a) == rs[0].spec_row() + ", "@ + spec_rows_joined(
                rs.subrange(1, rs.len() as int).subrange(0, i - 1)));
            assert(spec_rows_joined(b) == rs[0].spec_row() + ", "@ + spec_rows_joined(
                rs.subrange(1, rs.len() as int).subrange(0, i - 2)));
            assert(spec_rows_joined(a) =~= spec_rows_joined(b) + ", "@
                + rs[i - 1].spec_row());
        }
    }
}

/// The statement asking whether a database exists.
pub fn show_databases_sql(db: &str) -> (r: String)
    ensures
        r@ == "SHOW DATABASES LIKE \""@ + db@ + "\";"@,
{
    let mut s: String = String::from_str("SHOW DATABASES LIKE \"");
    s.append(db);
    s.append("\";");
    proof {
        assert(s@ =~= "SHOW DATABASES LIKE \""@ + db@ + "\";"@);
    }
    s
}

/// The statement creating a tenant's database.
pub fn create_database_sql(db: &str) -> (r: String)
    ensures
        r@ == "CREATE DATABASE "@ + db@ + ";"@,
{
    let mut s: String = String::from_str("CREATE DATABASE ");
    s.append(db);
    s.append(";");
    proof {
        assert(s@ =~= "CREATE DATABASE "@ + db@ + ";"@);
    }
    s
}

/// The connection text for a database behind a server address.
pub fn mysql_conn_url(server: &str, db: &str) -> (r: String)
    ensures
        r@ == "mysql://"@ + server@ + seq!['/'] + db@,
{
    let mut s: String = String::from_str("mysql://");
    s.append(server);
    push_char(&mut s, '/');
    s.append(db);
    proof {
        assert(s@ =~= "mysql://"@ + server@ + seq!['/'] + db@);
    }
    s
}

} // verus!
