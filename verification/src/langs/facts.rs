//! Facts about the language table.

use vstd::prelude::*;

use super::data;
use super::data::Language;
use super::detection;
use super::further;
use super::further::Named;
use super::scoring;

verus! {

/// Every language has markers that automata can be built from.
pub open spec fn are_well_marked(s: Seq<Language>) -> bool {
    forall|i: int| 0 <= i < s.len() ==> scoring::well_marked(#[trigger] s[i])
}

proof fn lemma_joined(a: Seq<Language>, b: Seq<Language>)
    requires
        are_well_marked(a),
        are_well_marked(b),
    ensures
        are_well_marked(a + b),
{
}

proof fn common_are_well_marked()
    ensures
        are_well_marked(data::common_languages()),
{
    reveal(data::common_languages);
    reveal_strlit("#");
    reveal_strlit("# ");
    reveal_strlit("###");
    reveal_strlit("#=");
    reveal_strlit("#>");
    reveal_strlit("#[");
    reveal_strlit("#[[");
    reveal_strlit("%");
    reveal_strlit("%{");
    reveal_strlit("%}");
    reveal_strlit("'''");
    reveal_strlit("(*");
    reveal_strlit("*)");
    reveal_strlit("*/");
    reveal_strlit("--");
    reveal_strlit("-->");
    reveal_strlit("--[[");
    reveal_strlit("-}");
    reveal_strlit(".. ");
    reveal_strlit(".\\\"");
    reveal_strlit("/*");
    reveal_strlit("//");
    reveal_strlit("////");
    reveal_strlit("::");
    reveal_strlit(";");
    reveal_strlit("<!--");
    reveal_strlit("<#");
    reveal_strlit("=#");
    reveal_strlit("=begin");
    reveal_strlit("=cut");
    reveal_strlit("=end");
    reveal_strlit("=pod");
    reveal_strlit("REM");
    reveal_strlit("\"");
    reveal_strlit("\"\"\"");
    reveal_strlit("]#");
    reveal_strlit("]]");
    reveal_strlit("{-");
    let t = data::common_languages();
    assert(t.len() == 72);
    assert(scoring::well_marked(t[0]));
    assert(scoring::well_marked(t[1]));
    assert(scoring::well_marked(t[2]));
    assert(scoring::well_marked(t[3]));
    assert(scoring::well_marked(t[4]));
    assert(scoring::well_marked(t[5]));
    assert(scoring::well_marked(t[6]));
    assert(scoring::well_marked(t[7]));
    assert(scoring::well_marked(t[8]));
    assert(scoring::well_marked(t[9]));
    assert(scoring::well_marked(t[10]));
    assert(scoring::well_marked(t[11]));
    assert(scoring::well_marked(t[12]));
    assert(scoring::well_marked(t[13]));
    assert(scoring::well_marked(t[14]));
    assert(scoring::well_marked(t[15]));
    assert(scoring::well_marked(t[16]));
    assert(scoring::well_marked(t[17]));
    assert(scoring::well_marked(t[18]));
    assert(scoring::well_marked(t[19]));
    assert(scoring::well_marked(t[20]));
    assert(scoring::well_marked(t[21]));
    assert(scoring::well_marked(t[22]));
    assert(scoring::well_marked(t[23]));
    assert(scoring::well_marked(t[24]));
    assert(scoring::well_marked(t[25]));
    assert(scoring::well_marked(t[26]));
    assert(scoring::well_marked(t[27]));
    assert(scoring::well_marked(t[28]));
    assert(scoring::well_marked(t[29]));
    assert(scoring::well_marked(t[30]));
    assert(scoring::well_marked(t[31]));
    assert(scoring::well_marked(t[32]));
    assert(scoring::well_marked(t[33]));
    assert(scoring::well_marked(t[34]));
    assert(scoring::well_marked(t[35]));
    assert(scoring::well_marked(t[36]));
    assert(scoring::well_marked(t[37]));
    assert(scoring::well_marked(t[38]));
    assert(scoring::well_marked(t[39]));
    assert(scoring::well_marked(t[40]));
    assert(scoring::well_marked(t[41]));
    assert(scoring::well_marked(t[42]));
    assert(scoring::well_marked(t[43]));
    assert(scoring::well_marked(t[44]));
    assert(scoring::well_marked(t[45]));
    assert(scoring::well_marked(t[46]));
    assert(scoring::well_marked(t[47]));
    assert(scoring::well_marked(t[48]));
    assert(scoring::well_marked(t[49]));
    assert(scoring::well_marked(t[50]));
    assert(scoring::well_marked(t[51]));
    assert(scoring::well_marked(t[52]));
    assert(scoring::well_marked(t[53]));
    assert(scoring::well_marked(t[54]));
    assert(scoring::well_marked(t[55]));
    assert(scoring::well_marked(t[56]));
    assert(scoring::well_marked(t[57]));
    assert(scoring::well_marked(t[58]));
    assert(scoring::well_marked(t[59]));
    assert(scoring::well_marked(t[60]));
    assert(scoring::well_marked(t[61]));
    assert(scoring::well_marked(t[62]));
    assert(scoring::well_marked(t[63]));
    assert(scoring::well_marked(t[64]));
    assert(scoring::well_marked(t[65]));
    assert(scoring::well_marked(t[66]));
    assert(scoring::well_marked(t[67]));
    assert(scoring::well_marked(t[68]));
    assert(scoring::well_marked(t[69]));
    assert(scoring::well_marked(t[70]));
    assert(scoring::well_marked(t[71]));
}

proof fn slash_are_well_marked(list: Seq<Named>)
    ensures
        are_well_marked(further::commented(list, further::slash_comments())),
{
    reveal_strlit("//");
    reveal_strlit("/*");
    reveal_strlit("*/");
    let c = further::slash_comments();
    assert(scoring::are_tokens(c.line@));
    assert(scoring::are_pairs(c.blocks@));
}

proof fn hash_are_well_marked(list: Seq<Named>)
    ensures
        are_well_marked(further::commented(list, further::hash_comments())),
{
    reveal_strlit("#");
    let c = further::hash_comments();
    assert(scoring::are_tokens(c.line@));
    assert(scoring::are_pairs(c.blocks@));
}

proof fn semicolon_are_well_marked(list: Seq<Named>)
    ensures
        are_well_marked(further::commented(list, further::semicolon_comments())),
{
    reveal_strlit(";");
    let c = further::semicolon_comments();
    assert(scoring::are_tokens(c.line@));
    assert(scoring::are_pairs(c.blocks@));
}

proof fn markup_are_well_marked(list: Seq<Named>)
    ensures
        are_well_marked(further::commented(list, further::markup_comments())),
{
    reveal_strlit("<!--");
    reveal_strlit("-->");
    let c = further::markup_comments();
    assert(scoring::are_tokens(c.line@));
    assert(scoring::are_pairs(c.blocks@));
}

proof fn nested_are_well_marked(list: Seq<Named>)
    ensures
        are_well_marked(further::commented(list, further::nested_comments())),
{
    reveal_strlit("//");
    reveal_strlit("/*");
    reveal_strlit("*/");
    let c = further::nested_comments();
    assert(scoring::are_tokens(c.line@));
    assert(scoring::are_pairs(c.blocks@));
}

proof fn star_are_well_marked(list: Seq<Named>)
    ensures
        are_well_marked(further::commented(list, further::star_comments())),
{
    reveal_strlit("(*");
    reveal_strlit("*)");
    let c = further::star_comments();
    assert(scoring::are_tokens(c.line@));
    assert(scoring::are_pairs(c.blocks@));
}

proof fn line_are_well_marked(list: Seq<Named>)
    ensures
        are_well_marked(further::commented(list, further::line_comments())),
{
    reveal_strlit("//");
    let c = further::line_comments();
    assert(scoring::are_tokens(c.line@));
    assert(scoring::are_pairs(c.blocks@));
}

proof fn dash_are_well_marked(list: Seq<Named>)
    ensures
        are_well_marked(further::commented(list, further::dash_comments())),
{
    reveal_strlit("--");
    reveal_strlit("{-");
    reveal_strlit("-}");
    let c = further::dash_comments();
    assert(scoring::are_tokens(c.line@));
    assert(scoring::are_pairs(c.blocks@));
}

proof fn mixed_are_well_marked(list: Seq<Named>)
    ensures
        are_well_marked(further::commented(list, further::mixed_comments())),
{
    reveal_strlit("#");
    reveal_strlit("//");
    reveal_strlit("/*");
    reveal_strlit("*/");
    let c = further::mixed_comments();
    assert(scoring::are_tokens(c.line@));
    assert(scoring::are_pairs(c.blocks@));
}

proof fn query_are_well_marked(list: Seq<Named>)
    ensures
        are_well_marked(further::commented(list, further::query_comments())),
{
    reveal_strlit("--");
    reveal_strlit("/*");
    reveal_strlit("*/");
    let c = further::query_comments();
    assert(scoring::are_tokens(c.line@));
    assert(scoring::are_pairs(c.blocks@));
}

proof fn quote_are_well_marked(list: Seq<Named>)
    ensures
        are_well_marked(further::commented(list, further::quote_comments())),
{
    reveal_strlit("'");
    let c = further::quote_comments();
    assert(scoring::are_tokens(c.line@));
    assert(scoring::are_pairs(c.blocks@));
}

proof fn percent_are_well_marked(list: Seq<Named>)
    ensures
        are_well_marked(further::commented(list, further::percent_comments())),
{
    reveal_strlit("%");
    reveal_strlit("/*");
    reveal_strlit("*/");
    let c = further::percent_comments();
    assert(scoring::are_tokens(c.line@));
    assert(scoring::are_pairs(c.blocks@));
}

proof fn other_languages_first_are_well_marked()
    ensures
        are_well_marked(further::other_languages_first()),
{
    reveal(further::other_languages_first);
    reveal_strlit("!");
    reveal_strlit("\"");
    reveal_strlit("#");
    reveal_strlit("#ce");
    reveal_strlit("#cs");
    reveal_strlit("#|");
    reveal_strlit("%>");
    reveal_strlit("'");
    reveal_strlit("'/");
    reveal_strlit("(*");
    reveal_strlit("*");
    reveal_strlit("*)");
    reveal_strlit("*/");
    reveal_strlit("*/}}");
    reveal_strlit("*>");
    reveal_strlit("*@");
    reveal_strlit("+/");
    reveal_strlit("--");
    reveal_strlit("--%>");
    reveal_strlit("--->");
    reveal_strlit("-->");
    reveal_strlit("--}}");
    reveal_strlit("/'");
    reveal_strlit("/*");
    reveal_strlit("/+");
    reveal_strlit("//");
    reveal_strlit(";");
    reveal_strlit("<!--");
    reveal_strlit("<!---");
    reveal_strlit("<#--");
    reveal_strlit("<%#");
    reveal_strlit("<%--");
    reveal_strlit("@*");
    reveal_strlit("REM");
    reveal_strlit("\\");
    reveal_strlit("{{--");
    reveal_strlit("{{/*");
    reveal_strlit("|#");
    let t = further::other_languages_first();
    assert(t.len() == 30);
    assert(scoring::well_marked(t[0]));
    assert(scoring::well_marked(t[1]));
    assert(scoring::well_marked(t[2]));
    assert(scoring::well_marked(t[3]));
    assert(scoring::well_marked(t[4]));
    assert(scoring::well_marked(t[5]));
    assert(scoring::well_marked(t[6]));
    assert(scoring::well_marked(t[7]));
    assert(scoring::well_marked(t[8]));
    assert(scoring::well_marked(t[9]));
    assert(scoring::well_marked(t[10]));
    assert(scoring::well_marked(t[11]));
    assert(scoring::well_marked(t[12]));
    assert(scoring::well_marked(t[13]));
    assert(scoring::well_marked(t[14]));
    assert(scoring::well_marked(t[15]));
    assert(scoring::well_marked(t[16]));
    assert(scoring::well_marked(t[17]));
    assert(scoring::well_marked(t[18]));
    assert(scoring::well_marked(t[19]));
    assert(scoring::well_marked(t[20]));
    assert(scoring::well_marked(t[21]));
    assert(scoring::well_marked(t[22]));
    assert(scoring::well_marked(t[23]));
    assert(scoring::well_marked(t[24]));
    assert(scoring::well_marked(t[25]));
    assert(scoring::well_marked(t[26]));
    assert(scoring::well_marked(t[27]));
    assert(scoring::well_marked(t[28]));
    assert(scoring::well_marked(t[29]));
}

proof fn other_languages_second_are_well_marked()
    ensures
        are_well_marked(further::other_languages_second()),
{
    reveal(further::other_languages_second);
    reveal_strlit("\"");
    reveal_strlit("#");
    reveal_strlit("#|");
    reveal_strlit("#}");
    reveal_strlit("%");
    reveal_strlit("%%");
    reveal_strlit("%{");
    reveal_strlit("%}");
    reveal_strlit("(*");
    reveal_strlit("*");
    reveal_strlit("*)");
    reveal_strlit("*/");
    reveal_strlit("*}");
    reveal_strlit("-#");
    reveal_strlit("--");
    reveal_strlit("--%>");
    reveal_strlit("-->");
    reveal_strlit("--[[");
    reveal_strlit("-/");
    reveal_strlit("/");
    reveal_strlit("/*");
    reveal_strlit("/-");
    reveal_strlit("//");
    reveal_strlit(";");
    reveal_strlit("<!--");
    reveal_strlit("<%--");
    reveal_strlit("NB.");
    reveal_strlit("\\*");
    reveal_strlit("]]");
    reveal_strlit("dnl");
    reveal_strlit("{");
    reveal_strlit("{#");
    reveal_strlit("{% comment %}");
    reveal_strlit("{% endcomment %}");
    reveal_strlit("{*");
    reveal_strlit("{{!");
    reveal_strlit("|#");
    reveal_strlit("}");
    reveal_strlit("}}");
    let t = further::other_languages_second();
    assert(t.len() == 30);
    assert(scoring::well_marked(t[0]));
    assert(scoring::well_marked(t[1]));
    assert(scoring::well_marked(t[2]));
    assert(scoring::well_marked(t[3]));
    assert(scoring::well_marked(t[4]));
    assert(scoring::well_marked(t[5]));
    assert(scoring::well_marked(t[6]));
    assert(scoring::well_marked(t[7]));
    assert(scoring::well_marked(t[8]));
    assert(scoring::well_marked(t[9]));
    assert(scoring::well_marked(t[10]));
    assert(scoring::well_marked(t[11]));
    assert(scoring::well_marked(t[12]));
    assert(scoring::well_marked(t[13]));
    assert(scoring::well_marked(t[14]));
    assert(scoring::well_marked(t[15]));
    assert(scoring::well_marked(t[16]));
    assert(scoring::well_marked(t[17]));
    assert(scoring::well_marked(t[18]));
    assert(scoring::well_marked(t[19]));
    assert(scoring::well_marked(t[20]));
    assert(scoring::well_marked(t[21]));
    assert(scoring::well_marked(t[22]));
    assert(scoring::well_marked(t[23]));
    assert(scoring::well_marked(t[24]));
    assert(scoring::well_marked(t[25]));
    assert(scoring::well_marked(t[26]));
    assert(scoring::well_marked(t[27]));
    assert(scoring::well_marked(t[28]));
    assert(scoring::well_marked(t[29]));
}

proof fn other_languages_third_are_well_marked()
    ensures
        are_well_marked(further::other_languages_third()),
{
    reveal(further::other_languages_third);
    reveal_strlit("#");
    reveal_strlit("##");
    reveal_strlit("#*");
    reveal_strlit("#}");
    reveal_strlit("'");
    reveal_strlit("(:");
    reveal_strlit("(;");
    reveal_strlit("*#");
    reveal_strlit("*/");
    reveal_strlit("--");
    reveal_strlit("--[[");
    reveal_strlit("/*");
    reveal_strlit("//");
    reveal_strlit(":)");
    reveal_strlit(";)");
    reveal_strlit(";;");
    reveal_strlit("]]");
    reveal_strlit("{#");
    let t = further::other_languages_third();
    assert(t.len() == 9);
    assert(scoring::well_marked(t[0]));
    assert(scoring::well_marked(t[1]));
    assert(scoring::well_marked(t[2]));
    assert(scoring::well_marked(t[3]));
    assert(scoring::well_marked(t[4]));
    assert(scoring::well_marked(t[5]));
    assert(scoring::well_marked(t[6]));
    assert(scoring::well_marked(t[7]));
    assert(scoring::well_marked(t[8]));
}

/// Every language of the table has markers that automata can be built from.
pub proof fn table_is_well_marked()
    ensures
        forall|i: int|
            0 <= i < data::language_table().len() ==> scoring::well_marked(
                #[trigger] data::language_table()[i],
            ),
{
    common_are_well_marked();
    slash_are_well_marked(further::slash_languages_first());
    slash_are_well_marked(further::slash_languages_second());
    slash_are_well_marked(further::slash_languages_third());
    hash_are_well_marked(further::hash_languages_first());
    hash_are_well_marked(further::hash_languages_second());
    semicolon_are_well_marked(further::semicolon_languages());
    markup_are_well_marked(further::markup_languages());
    nested_are_well_marked(further::nested_languages());
    star_are_well_marked(further::star_languages());
    line_are_well_marked(further::line_languages());
    dash_are_well_marked(further::dash_languages());
    mixed_are_well_marked(further::mixed_languages());
    query_are_well_marked(further::query_languages());
    quote_are_well_marked(further::quote_languages());
    percent_are_well_marked(further::percent_languages());
    other_languages_first_are_well_marked();
    other_languages_second_are_well_marked();
    other_languages_third_are_well_marked();
    let s0 = further::commented(further::slash_languages_first(), further::slash_comments());
    let s1 = s0 + further::commented(further::slash_languages_second(), further::slash_comments());
    lemma_joined(s0, further::commented(further::slash_languages_second(), further::slash_comments()));
    let s2 = s1 + further::commented(further::slash_languages_third(), further::slash_comments());
    lemma_joined(s1, further::commented(further::slash_languages_third(), further::slash_comments()));
    let s3 = s2 + further::commented(further::hash_languages_first(), further::hash_comments());
    lemma_joined(s2, further::commented(further::hash_languages_first(), further::hash_comments()));
    let s4 = s3 + further::commented(further::hash_languages_second(), further::hash_comments());
    lemma_joined(s3, further::commented(further::hash_languages_second(), further::hash_comments()));
    let s5 = s4 + further::commented(further::semicolon_languages(), further::semicolon_comments());
    lemma_joined(s4, further::commented(further::semicolon_languages(), further::semicolon_comments()));
    let s6 = s5 + further::commented(further::markup_languages(), further::markup_comments());
    lemma_joined(s5, further::commented(further::markup_languages(), further::markup_comments()));
    let s7 = s6 + further::commented(further::nested_languages(), further::nested_comments());
    lemma_joined(s6, further::commented(further::nested_languages(), further::nested_comments()));
    let s8 = s7 + further::commented(further::star_languages(), further::star_comments());
    lemma_joined(s7, further::commented(further::star_languages(), further::star_comments()));
    let s9 = s8 + further::commented(further::line_languages(), further::line_comments());
    lemma_joined(s8, further::commented(further::line_languages(), further::line_comments()));
    let s10 = s9 + further::commented(further::dash_languages(), further::dash_comments());
    lemma_joined(s9, further::commented(further::dash_languages(), further::dash_comments()));
    let s11 = s10 + further::commented(further::mixed_languages(), further::mixed_comments());
    lemma_joined(s10, further::commented(further::mixed_languages(), further::mixed_comments()));
    let s12 = s11 + further::commented(further::query_languages(), further::query_comments());
    lemma_joined(s11, further::commented(further::query_languages(), further::query_comments()));
    let s13 = s12 + further::commented(further::quote_languages(), further::quote_comments());
    lemma_joined(s12, further::commented(further::quote_languages(), further::quote_comments()));
    let s14 = s13 + further::commented(further::percent_languages(), further::percent_comments());
    lemma_joined(s13, further::commented(further::percent_languages(), further::percent_comments()));
    let s15 = s14 + further::other_languages_first();
    lemma_joined(s14, further::other_languages_first());
    let s16 = s15 + further::other_languages_second();
    lemma_joined(s15, further::other_languages_second());
    let s17 = s16 + further::other_languages_third();
    lemma_joined(s16, further::other_languages_third());
    lemma_joined(data::common_languages(), s17);
    reveal(data::language_table);
    assert(data::language_table() == data::common_languages() + s17);
    assert(are_well_marked(data::language_table()));
}

proof fn lemma_fitting(table: Seq<Language>, name: Seq<char>, i: int)
    requires
        0 <= i < detection::fitting(table, name).len(),
    ensures
        table.contains(detection::fitting(table, name)[i]),
    decreases table.len(),
{
    let rest = table.drop_last();
    if detection::fits_language(name, table.last()) && i == detection::fitting(table, name).len() - 1 {
        assert(table[table.len() - 1] == table.last());
    } else {
        lemma_fitting(rest, name, i);
        let x = detection::fitting(rest, name)[i];
        let k = choose|k: int| 0 <= k < rest.len() && rest[k] == x;
        assert(table[k] == x);
    }
}

proof fn lemma_claimed(table: Seq<Language>, line: Seq<char>)
    ensures
        match detection::claimed(table, line) {
            Some(l) => table.contains(l),
            None => true,
        },
    decreases table.len(),
{
    if table.len() > 0 {
        if detection::has_shebang(table[0], line) {
            assert(table.contains(table[0]));
        } else {
            lemma_claimed(table.skip(1), line);
            if let Some(l) = detection::claimed(table.skip(1), line) {
                let k = choose|k: int| 0 <= k < table.skip(1).len() && table.skip(1)[k] == l;
                assert(table[k + 1] == l);
            }
        }
    }
}

proof fn lemma_best(langs: Seq<Language>, content: Seq<char>)
    ensures
        match detection::best(langs, content) {
            Some(l) => langs.contains(l),
            None => true,
        },
    decreases langs.len(),
{
    if langs.len() > 0 {
        lemma_best(langs.drop_last(), content);
        assert(langs[langs.len() - 1] == langs.last());
        if let Some(l) = detection::best(langs.drop_last(), content) {
            let k = choose|k: int|
                0 <= k < langs.drop_last().len() && langs.drop_last()[k] == l;
            assert(langs[k] == l);
        }
    }
}

/// Detection only ever names a language of the table.
pub proof fn detected_is_known(filename: Seq<char>, content: Option<Seq<char>>)
    ensures
        match detection::detected(filename, content) {
            Some(l) => data::language_table().contains(l) && scoring::well_marked(l),
            None => true,
        },
{
    table_is_well_marked();
    let table = data::language_table();
    let found = detection::candidates(filename);
    let name = crate::text::after_last(filename, '/');
    if found.len() == 1 {
        lemma_fitting(table, name, 0);
    } else if let Some(c) = content {
        let lines = crate::text::lines_of(c);
        if lines.len() > 0 {
            lemma_claimed(table, detection::plain_shebang(crate::text::trim(lines[0])));
        }
        lemma_best(found, c);
        if let Some(l) = detection::best(found, c) {
            let k = choose|k: int| 0 <= k < found.len() && found[k] == l;
            lemma_fitting(table, name, k);
        }
    }
    if let Some(l) = detection::detected(filename, content) {
        let k = choose|k: int| 0 <= k < table.len() && table[k] == l;
        assert(scoring::well_marked(table[k]));
    }
}

/// How the languages that are known best are named and written: the first of
/// them in the order in which they are tried.
pub proof fn the_first_languages_are_written_so()
    ensures
        data::language_table().len() >= 72,
        data::language_table()[0].name@ == "Apache Config"@,
        data::language_table()[0].nested_blocks == false,
        data::language_table()[0].patterns@.len() == 2,
        data::language_table()[0].patterns@[0]@ == "*.htaccess"@,
        data::language_table()[0].patterns@[1]@ == "httpd.conf"@,
        data::language_table()[0].line_comments@.len() == 1,
        data::language_table()[0].line_comments@[0]@ == "#"@,
        data::language_table()[0].keywords@.len() == 0,
        data::language_table()[0].shebangs@.len() == 0,
        data::language_table()[0].block_comments@.len() == 0,
        data::language_table()[1].name@ == "AsciiDoc"@,
        data::language_table()[1].nested_blocks == false,
        data::language_table()[1].patterns@.len() == 2,
        data::language_table()[1].patterns@[0]@ == "*.adoc"@,
        data::language_table()[1].patterns@[1]@ == "*.asciidoc"@,
        data::language_table()[1].line_comments@.len() == 1,
        data::language_table()[1].line_comments@[0]@ == "//"@,
        data::language_table()[1].keywords@.len() == 0,
        data::language_table()[1].shebangs@.len() == 0,
        data::language_table()[1].block_comments@.len() == 1,
        data::language_table()[1].block_comments@[0].0@ == "////"@,
        data::language_table()[1].block_comments@[0].1@ == "////"@,
        data::language_table()[2].name@ == "Bash"@,
        data::language_table()[2].nested_blocks == false,
        data::language_table()[2].patterns@.len() == 4,
        data::language_table()[2].patterns@[0]@ == "*.sh"@,
        data::language_table()[2].patterns@[1]@ == "*.bash"@,
        data::language_table()[2].patterns@[2]@ == ".bashrc"@,
        data::language_table()[2].patterns@[3]@ == ".bash_profile"@,
        data::language_table()[2].line_comments@.len() == 1,
        data::language_table()[2].line_comments@[0]@ == "#"@,
        data::language_table()[2].keywords@.len() == 4,
        data::language_table()[2].keywords@[0]@ == "fi"@,
        data::language_table()[2].keywords@[1]@ == "esac"@,
        data::language_table()[2].keywords@[2]@ == "done"@,
        data::language_table()[2].keywords@[3]@ == "echo"@,
        data::language_table()[2].shebangs@.len() == 5,
        data::language_table()[2].shebangs@[0]@ == "#!/usr/bin/env bash"@,
        data::language_table()[2].shebangs@[1]@ == "#!/bin/bash"@,
        data::language_table()[2].shebangs@[2]@ == "#!/usr/bin/bash"@,
        data::language_table()[2].shebangs@[3]@ == "#!/bin/sh"@,
        data::language_table()[2].shebangs@[4]@ == "#!/usr/bin/env sh"@,
        data::language_table()[2].block_comments@.len() == 0,
        data::language_table()[3].name@ == "Batch"@,
        data::language_table()[3].nested_blocks == false,
        data::language_table()[3].patterns@.len() == 2,
        data::language_table()[3].patterns@[0]@ == "*.bat"@,
        data::language_table()[3].patterns@[1]@ == "*.cmd"@,
        data::language_table()[3].line_comments@.len() == 2,
        data::language_table()[3].line_comments@[0]@ == "REM"@,
        data::language_table()[3].line_comments@[1]@ == "::"@,
        data::language_table()[3].keywords@.len() == 0,
        data::language_table()[3].shebangs@.len() == 0,
        data::language_table()[3].block_comments@.len() == 0,
        data::language_table()[4].name@ == "BibTeX"@,
        data::language_table()[4].nested_blocks == false,
        data::language_table()[4].patterns@.len() == 1,
        data::language_table()[4].patterns@[0]@ == "*.bib"@,
        data::language_table()[4].line_comments@.len() == 1,
        data::language_table()[4].line_comments@[0]@ == "%"@,
        data::language_table()[4].keywords@.len() == 0,
        data::language_table()[4].shebangs@.len() == 0,
        data::language_table()[4].block_comments@.len() == 0,
        data::language_table()[5].name@ == "C"@,
        data::language_table()[5].nested_blocks == false,
        data::language_table()[5].patterns@.len() == 2,
        data::language_table()[5].patterns@[0]@ == "*.c"@,
        data::language_table()[5].patterns@[1]@ == "*.h"@,
        data::language_table()[5].line_comments@.len() == 1,
        data::language_table()[5].line_comments@[0]@ == "//"@,
        data::language_table()[5].keywords@.len() == 4,
        data::language_table()[5].keywords@[0]@ == "#include"@,
        data::language_table()[5].keywords@[1]@ == "#define"@,
        data::language_table()[5].keywords@[2]@ == "typedef"@,
        data::language_table()[5].keywords@[3]@ == "struct"@,
        data::language_table()[5].shebangs@.len() == 0,
        data::language_table()[5].block_comments@.len() == 1,
        data::language_table()[5].block_comments@[0].0@ == "/*"@,
        data::language_table()[5].block_comments@[0].1@ == "*/"@,
        data::language_table()[6].name@ == "C#"@,
        data::language_table()[6].nested_blocks == false,
        data::language_table()[6].patterns@.len() == 1,
        data::language_table()[6].patterns@[0]@ == "*.cs"@,
        data::language_table()[6].line_comments@.len() == 1,
        data::language_table()[6].line_comments@[0]@ == "//"@,
        data::language_table()[6].keywords@.len() == 3,
        data::language_table()[6].keywords@[0]@ == "namespace"@,
        data::language_table()[6].keywords@[1]@ == "using"@,
        data::language_table()[6].keywords@[2]@ == "class"@,
        data::language_table()[6].shebangs@.len() == 0,
        data::language_table()[6].block_comments@.len() == 1,
        data::language_table()[6].block_comments@[0].0@ == "/*"@,
        data::language_table()[6].block_comments@[0].1@ == "*/"@,
        data::language_table()[7].name@ == "C++"@,
        data::language_table()[7].nested_blocks == false,
        data::language_table()[7].patterns@.len() == 6,
        data::language_table()[7].patterns@[0]@ == "*.cpp"@,
        data::language_table()[7].patterns@[1]@ == "*.cc"@,
        data::language_table()[7].patterns@[2]@ == "*.cxx"@,
        data::language_table()[7].patterns@[3]@ == "*.hpp"@,
        data::language_table()[7].patterns@[4]@ == "*.hh"@,
        data::language_table()[7].patterns@[5]@ == "*.hxx"@,
        data::language_table()[7].line_comments@.len() == 1,
        data::language_table()[7].line_comments@[0]@ == "//"@,
        data::language_table()[7].keywords@.len() == 4,
        data::language_table()[7].keywords@[0]@ == "#include"@,
        data::language_table()[7].keywords@[1]@ == "template"@,
        data::language_table()[7].keywords@[2]@ == "namespace"@,
        data::language_table()[7].keywords@[3]@ == "std::"@,
        data::language_table()[7].shebangs@.len() == 0,
        data::language_table()[7].block_comments@.len() == 1,
        data::language_table()[7].block_comments@[0].0@ == "/*"@,
        data::language_table()[7].block_comments@[0].1@ == "*/"@,
{
    reveal(data::language_table);
    reveal(data::common_languages);
    let t = data::common_languages();
    assert(t.len() == 72);
    assert(data::language_table()[0] == t[0]);
    assert(data::language_table()[1] == t[1]);
    assert(data::language_table()[2] == t[2]);
    assert(data::language_table()[3] == t[3]);
    assert(data::language_table()[4] == t[4]);
    assert(data::language_table()[5] == t[5]);
    assert(data::language_table()[6] == t[6]);
    assert(data::language_table()[7] == t[7]);
}

/// How the languages that are known best are named and written: the second of
/// them in the order in which they are tried.
pub proof fn the_second_languages_are_written_so()
    ensures
        data::language_table().len() >= 72,
        data::language_table()[8].name@ == "CMake"@,
        data::language_table()[8].nested_blocks == false,
        data::language_table()[8].patterns@.len() == 2,
        data::language_table()[8].patterns@[0]@ == "CMakeLists.txt"@,
        data::language_table()[8].patterns@[1]@ == "*.cmake"@,
        data::language_table()[8].line_comments@.len() == 1,
        data::language_table()[8].line_comments@[0]@ == "#"@,
        data::language_table()[8].keywords@.len() == 0,
        data::language_table()[8].shebangs@.len() == 0,
        data::language_table()[8].block_comments@.len() == 1,
        data::language_table()[8].block_comments@[0].0@ == "#[["@,
        data::language_table()[8].block_comments@[0].1@ == "]]"@,
        data::language_table()[9].name@ == "CSS"@,
        data::language_table()[9].nested_blocks == false,
        data::language_table()[9].patterns@.len() == 1,
        data::language_table()[9].patterns@[0]@ == "*.css"@,
        data::language_table()[9].line_comments@.len() == 0,
        data::language_table()[9].keywords@.len() == 0,
        data::language_table()[9].shebangs@.len() == 0,
        data::language_table()[9].block_comments@.len() == 1,
        data::language_table()[9].block_comments@[0].0@ == "/*"@,
        data::language_table()[9].block_comments@[0].1@ == "*/"@,
        data::language_table()[10].name@ == "CSV"@,
        data::language_table()[10].nested_blocks == false,
        data::language_table()[10].patterns@.len() == 1,
        data::language_table()[10].patterns@[0]@ == "*.csv"@,
        data::language_table()[10].line_comments@.len() == 0,
        data::language_table()[10].keywords@.len() == 0,
        data::language_table()[10].shebangs@.len() == 0,
        data::language_table()[10].block_comments@.len() == 0,
        data::language_table()[11].name@ == "Clojure"@,
        data::language_table()[11].nested_blocks == false,
        data::language_table()[11].patterns@.len() == 3,
        data::language_table()[11].patterns@[0]@ == "*.clj"@,
        data::language_table()[11].patterns@[1]@ == "*.cljs"@,
        data::language_table()[11].patterns@[2]@ == "*.cljc"@,
        data::language_table()[11].line_comments@.len() == 1,
        data::language_table()[11].line_comments@[0]@ == ";"@,
        data::language_table()[11].keywords@.len() == 0,
        data::language_table()[11].shebangs@.len() == 0,
        data::language_table()[11].block_comments@.len() == 0,
        data::language_table()[12].name@ == "CoffeeScript"@,
        data::language_table()[12].nested_blocks == false,
        data::language_table()[12].patterns@.len() == 1,
        data::language_table()[12].patterns@[0]@ == "*.coffee"@,
        data::language_table()[12].line_comments@.len() == 1,
        data::language_table()[12].line_comments@[0]@ == "#"@,
        data::language_table()[12].keywords@.len() == 0,
        data::language_table()[12].shebangs@.len() == 1,
        data::language_table()[12].shebangs@[0]@ == "#!/usr/bin/env coffee"@,
        data::language_table()[12].block_comments@.len() == 1,
        data::language_table()[12].block_comments@[0].0@ == "###"@,
        data::language_table()[12].block_comments@[0].1@ == "###"@,
        data::language_table()[13].name@ == "Dart"@,
        data::language_table()[13].nested_blocks == true,
        data::language_table()[13].patterns@.len() == 1,
        data::language_table()[13].patterns@[0]@ == "*.dart"@,
        data::language_table()[13].line_comments@.len() == 1,
        data::language_table()[13].line_comments@[0]@ == "//"@,
        data::language_table()[13].keywords@.len() == 3,
        data::language_table()[13].keywords@[0]@ == "library"@,
        data::language_table()[13].keywords@[1]@ == "import"@,
        data::language_table()[13].keywords@[2]@ == "class"@,
        data::language_table()[13].shebangs@.len() == 0,
        data::language_table()[13].block_comments@.len() == 1,
        data::language_table()[13].block_comments@[0].0@ == "/*"@,
        data::language_table()[13].block_comments@[0].1@ == "*/"@,
        data::language_table()[14].name@ == "Dockerfile"@,
        data::language_table()[14].nested_blocks == false,
        data::language_table()[14].patterns@.len() == 2,
        data::language_table()[14].patterns@[0]@ == "Dockerfile"@,
        data::language_table()[14].patterns@[1]@ == "*.dockerfile"@,
        data::language_table()[14].line_comments@.len() == 1,
        data::language_table()[14].line_comments@[0]@ == "#"@,
        data::language_table()[14].keywords@.len() == 0,
        data::language_table()[14].shebangs@.len() == 0,
        data::language_table()[14].block_comments@.len() == 0,
        data::language_table()[15].name@ == "Dotenv"@,
        data::language_table()[15].nested_blocks == false,
        data::language_table()[15].patterns@.len() == 2,
        data::language_table()[15].patterns@[0]@ == ".env"@,
        data::language_table()[15].patterns@[1]@ == "*.env"@,
        data::language_table()[15].line_comments@.len() == 1,
        data::language_table()[15].line_comments@[0]@ == "#"@,
        data::language_table()[15].keywords@.len() == 0,
        data::language_table()[15].shebangs@.len() == 0,
        data::language_table()[15].block_comments@.len() == 0,
{
    reveal(data::language_table);
    reveal(data::common_languages);
    let t = data::common_languages();
    assert(t.len() == 72);
    assert(data::language_table()[8] == t[8]);
    assert(data::language_table()[9] == t[9]);
    assert(data::language_table()[10] == t[10]);
    assert(data::language_table()[11] == t[11]);
    assert(data::language_table()[12] == t[12]);
    assert(data::language_table()[13] == t[13]);
    assert(data::language_table()[14] == t[14]);
    assert(data::language_table()[15] == t[15]);
}

/// How the languages that are known best are named and written: the third of
/// them in the order in which they are tried.
pub proof fn the_third_languages_are_written_so()
    ensures
        data::language_table().len() >= 72,
        data::language_table()[16].name@ == "EditorConfig"@,
        data::language_table()[16].nested_blocks == false,
        data::language_table()[16].patterns@.len() == 1,
        data::language_table()[16].patterns@[0]@ == ".editorconfig"@,
        data::language_table()[16].line_comments@.len() == 2,
        data::language_table()[16].line_comments@[0]@ == "#"@,
        data::language_table()[16].line_comments@[1]@ == ";"@,
        data::language_table()[16].keywords@.len() == 0,
        data::language_table()[16].shebangs@.len() == 0,
        data::language_table()[16].block_comments@.len() == 0,
        data::language_table()[17].name@ == "Elixir"@,
        data::language_table()[17].nested_blocks == false,
        data::language_table()[17].patterns@.len() == 2,
        data::language_table()[17].patterns@[0]@ == "*.ex"@,
        data::language_table()[17].patterns@[1]@ == "*.exs"@,
        data::language_table()[17].line_comments@.len() == 1,
        data::language_table()[17].line_comments@[0]@ == "#"@,
        data::language_table()[17].keywords@.len() == 3,
        data::language_table()[17].keywords@[0]@ == "defmodule"@,
        data::language_table()[17].keywords@[1]@ == "def"@,
        data::language_table()[17].keywords@[2]@ == "do"@,
        data::language_table()[17].shebangs@.len() == 1,
        data::language_table()[17].shebangs@[0]@ == "#!/usr/bin/env elixir"@,
        data::language_table()[17].block_comments@.len() == 0,
        data::language_table()[18].name@ == "Elm"@,
        data::language_table()[18].nested_blocks == true,
        data::language_table()[18].patterns@.len() == 1,
        data::language_table()[18].patterns@[0]@ == "*.elm"@,
        data::language_table()[18].line_comments@.len() == 1,
        data::language_table()[18].line_comments@[0]@ == "--"@,
        data::language_table()[18].keywords@.len() == 0,
        data::language_table()[18].shebangs@.len() == 0,
        data::language_table()[18].block_comments@.len() == 1,
        data::language_table()[18].block_comments@[0].0@ == "{-"@,
        data::language_table()[18].block_comments@[0].1@ == "-}"@,
        data::language_table()[19].name@ == "Erlang"@,
        data::language_table()[19].nested_blocks == false,
        data::language_table()[19].patterns@.len() == 2,
        data::language_table()[19].patterns@[0]@ == "*.erl"@,
        data::language_table()[19].patterns@[1]@ == "*.hrl"@,
        data::language_table()[19].line_comments@.len() == 1,
        data::language_table()[19].line_comments@[0]@ == "%"@,
        data::language_table()[19].keywords@.len() == 0,
        data::language_table()[19].shebangs@.len() == 0,
        data::language_table()[19].block_comments@.len() == 0,
        data::language_table()[20].name@ == "F#"@,
        data::language_table()[20].nested_blocks == true,
        data::language_table()[20].patterns@.len() == 3,
        data::language_table()[20].patterns@[0]@ == "*.fs"@,
        data::language_table()[20].patterns@[1]@ == "*.fsi"@,
        data::language_table()[20].patterns@[2]@ == "*.fsx"@,
        data::language_table()[20].line_comments@.len() == 1,
        data::language_table()[20].line_comments@[0]@ == "//"@,
        data::language_table()[20].keywords@.len() == 0,
        data::language_table()[20].shebangs@.len() == 0,
        data::language_table()[20].block_comments@.len() == 1,
        data::language_table()[20].block_comments@[0].0@ == "(*"@,
        data::language_table()[20].block_comments@[0].1@ == "*)"@,
        data::language_table()[21].name@ == "Go"@,
        data::language_table()[21].nested_blocks == false,
        data::language_table()[21].patterns@.len() == 1,
        data::language_table()[21].patterns@[0]@ == "*.go"@,
        data::language_table()[21].line_comments@.len() == 1,
        data::language_table()[21].line_comments@[0]@ == "//"@,
        data::language_table()[21].keywords@.len() == 3,
        data::language_table()[21].keywords@[0]@ == "package"@,
        data::language_table()[21].keywords@[1]@ == "func"@,
        data::language_table()[21].keywords@[2]@ == "import"@,
        data::language_table()[21].shebangs@.len() == 0,
        data::language_table()[21].block_comments@.len() == 1,
        data::language_table()[21].block_comments@[0].0@ == "/*"@,
        data::language_table()[21].block_comments@[0].1@ == "*/"@,
        data::language_table()[22].name@ == "GraphQL"@,
        data::language_table()[22].nested_blocks == false,
        data::language_table()[22].patterns@.len() == 2,
        data::language_table()[22].patterns@[0]@ == "*.graphql"@,
        data::language_table()[22].patterns@[1]@ == "*.gql"@,
        data::language_table()[22].line_comments@.len() == 1,
        data::language_table()[22].line_comments@[0]@ == "#"@,
        data::language_table()[22].keywords@.len() == 0,
        data::language_table()[22].shebangs@.len() == 0,
        data::language_table()[22].block_comments@.len() == 0,
        data::language_table()[23].name@ == "Groovy"@,
        data::language_table()[23].nested_blocks == false,
        data::language_table()[23].patterns@.len() == 2,
        data::language_table()[23].patterns@[0]@ == "*.groovy"@,
        data::language_table()[23].patterns@[1]@ == "*.gradle"@,
        data::language_table()[23].line_comments@.len() == 1,
        data::language_table()[23].line_comments@[0]@ == "//"@,
        data::language_table()[23].keywords@.len() == 0,
        data::language_table()[23].shebangs@.len() == 1,
        data::language_table()[23].shebangs@[0]@ == "#!/usr/bin/env groovy"@,
        data::language_table()[23].block_comments@.len() == 1,
        data::language_table()[23].block_comments@[0].0@ == "/*"@,
        data::language_table()[23].block_comments@[0].1@ == "*/"@,
{
    reveal(data::language_table);
    reveal(data::common_languages);
    let t = data::common_languages();
    assert(t.len() == 72);
    assert(data::language_table()[16] == t[16]);
    assert(data::language_table()[17] == t[17]);
    assert(data::language_table()[18] == t[18]);
    assert(data::language_table()[19] == t[19]);
    assert(data::language_table()[20] == t[20]);
    assert(data::language_table()[21] == t[21]);
    assert(data::language_table()[22] == t[22]);
    assert(data::language_table()[23] == t[23]);
}

/// How the languages that are known best are named and written: the fourth of
/// them in the order in which they are tried.
pub proof fn the_fourth_languages_are_written_so()
    ensures
        data::language_table().len() >= 72,
        data::language_table()[24].name@ == "HTML"@,
        data::language_table()[24].nested_blocks == false,
        data::language_table()[24].patterns@.len() == 2,
        data::language_table()[24].patterns@[0]@ == "*.html"@,
        data::language_table()[24].patterns@[1]@ == "*.htm"@,
        data::language_table()[24].line_comments@.len() == 0,
        data::language_table()[24].keywords@.len() == 0,
        data::language_table()[24].shebangs@.len() == 0,
        data::language_table()[24].block_comments@.len() == 1,
        data::language_table()[24].block_comments@[0].0@ == "<!--"@,
        data::language_table()[24].block_comments@[0].1@ == "-->"@,
        data::language_table()[25].name@ == "Haskell"@,
        data::language_table()[25].nested_blocks == true,
        data::language_table()[25].patterns@.len() == 1,
        data::language_table()[25].patterns@[0]@ == "*.hs"@,
        data::language_table()[25].line_comments@.len() == 1,
        data::language_table()[25].line_comments@[0]@ == "--"@,
        data::language_table()[25].keywords@.len() == 0,
        data::language_table()[25].shebangs@.len() == 0,
        data::language_table()[25].block_comments@.len() == 1,
        data::language_table()[25].block_comments@[0].0@ == "{-"@,
        data::language_table()[25].block_comments@[0].1@ == "-}"@,
        data::language_table()[26].name@ == "INI"@,
        data::language_table()[26].nested_blocks == false,
        data::language_table()[26].patterns@.len() == 2,
        data::language_table()[26].patterns@[0]@ == "*.ini"@,
        data::language_table()[26].patterns@[1]@ == "*.cfg"@,
        data::language_table()[26].line_comments@.len() == 2,
        data::language_table()[26].line_comments@[0]@ == ";"@,
        data::language_table()[26].line_comments@[1]@ == "#"@,
        data::language_table()[26].keywords@.len() == 0,
        data::language_table()[26].shebangs@.len() == 0,
        data::language_table()[26].block_comments@.len() == 0,
        data::language_table()[27].name@ == "JSON"@,
        data::language_table()[27].nested_blocks == false,
        data::language_table()[27].patterns@.len() == 1,
        data::language_table()[27].patterns@[0]@ == "*.json"@,
        data::language_table()[27].line_comments@.len() == 0,
        data::language_table()[27].keywords@.len() == 0,
        data::language_table()[27].shebangs@.len() == 0,
        data::language_table()[27].block_comments@.len() == 0,
        data::language_table()[28].name@ == "JSON5"@,
        data::language_table()[28].nested_blocks == false,
        data::language_table()[28].patterns@.len() == 1,
        data::language_table()[28].patterns@[0]@ == "*.json5"@,
        data::language_table()[28].line_comments@.len() == 1,
        data::language_table()[28].line_comments@[0]@ == "//"@,
        data::language_table()[28].keywords@.len() == 0,
        data::language_table()[28].shebangs@.len() == 0,
        data::language_table()[28].block_comments@.len() == 1,
        data::language_table()[28].block_comments@[0].0@ == "/*"@,
        data::language_table()[28].block_comments@[0].1@ == "*/"@,
        data::language_table()[29].name@ == "Java"@,
        data::language_table()[29].nested_blocks == false,
        data::language_table()[29].patterns@.len() == 1,
        data::language_table()[29].patterns@[0]@ == "*.java"@,
        data::language_table()[29].line_comments@.len() == 1,
        data::language_table()[29].line_comments@[0]@ == "//"@,
        data::language_table()[29].keywords@.len() == 3,
        data::language_table()[29].keywords@[0]@ == "package"@,
        data::language_table()[29].keywords@[1]@ == "import"@,
        data::language_table()[29].keywords@[2]@ == "class"@,
        data::language_table()[29].shebangs@.len() == 0,
        data::language_table()[29].block_comments@.len() == 1,
        data::language_table()[29].block_comments@[0].0@ == "/*"@,
        data::language_table()[29].block_comments@[0].1@ == "*/"@,
        data::language_table()[30].name@ == "JavaScript"@,
        data::language_table()[30].nested_blocks == false,
        data::language_table()[30].patterns@.len() == 4,
        data::language_table()[30].patterns@[0]@ == "*.js"@,
        data::language_table()[30].patterns@[1]@ == "*.jsx"@,
        data::language_table()[30].patterns@[2]@ == "*.mjs"@,
        data::language_table()[30].patterns@[3]@ == "*.cjs"@,
        data::language_table()[30].line_comments@.len() == 1,
        data::language_table()[30].line_comments@[0]@ == "//"@,
        data::language_table()[30].keywords@.len() == 3,
        data::language_table()[30].keywords@[0]@ == "function"@,
        data::language_table()[30].keywords@[1]@ == "const"@,
        data::language_table()[30].keywords@[2]@ == "require"@,
        data::language_table()[30].shebangs@.len() == 1,
        data::language_table()[30].shebangs@[0]@ == "#!/usr/bin/env node"@,
        data::language_table()[30].block_comments@.len() == 1,
        data::language_table()[30].block_comments@[0].0@ == "/*"@,
        data::language_table()[30].block_comments@[0].1@ == "*/"@,
        data::language_table()[31].name@ == "Julia"@,
        data::language_table()[31].nested_blocks == true,
        data::language_table()[31].patterns@.len() == 1,
        data::language_table()[31].patterns@[0]@ == "*.jl"@,
        data::language_table()[31].line_comments@.len() == 1,
        data::language_table()[31].line_comments@[0]@ == "#"@,
        data::language_table()[31].keywords@.len() == 0,
        data::language_table()[31].shebangs@.len() == 1,
        data::language_table()[31].shebangs@[0]@ == "#!/usr/bin/env julia"@,
        data::language_table()[31].block_comments@.len() == 1,
        data::language_table()[31].block_comments@[0].0@ == "#="@,
        data::language_table()[31].block_comments@[0].1@ == "=#"@,
{
    reveal(data::language_table);
    reveal(data::common_languages);
    let t = data::common_languages();
    assert(t.len() == 72);
    assert(data::language_table()[24] == t[24]);
    assert(data::language_table()[25] == t[25]);
    assert(data::language_table()[26] == t[26]);
    assert(data::language_table()[27] == t[27]);
    assert(data::language_table()[28] == t[28]);
    assert(data::language_table()[29] == t[29]);
    assert(data::language_table()[30] == t[30]);
    assert(data::language_table()[31] == t[31]);
}

/// How the languages that are known best are named and written: the fifth of
/// them in the order in which they are tried.
pub proof fn the_fifth_languages_are_written_so()
    ensures
        data::language_table().len() >= 72,
        data::language_table()[32].name@ == "Kotlin"@,
        data::language_table()[32].nested_blocks == true,
        data::language_table()[32].patterns@.len() == 2,
        data::language_table()[32].patterns@[0]@ == "*.kt"@,
        data::language_table()[32].patterns@[1]@ == "*.kts"@,
        data::language_table()[32].line_comments@.len() == 1,
        data::language_table()[32].line_comments@[0]@ == "//"@,
        data::language_table()[32].keywords@.len() == 3,
        data::language_table()[32].keywords@[0]@ == "fun"@,
        data::language_table()[32].keywords@[1]@ == "val"@,
        data::language_table()[32].keywords@[2]@ == "package"@,
        data::language_table()[32].shebangs@.len() == 0,
        data::language_table()[32].block_comments@.len() == 1,
        data::language_table()[32].block_comments@[0].0@ == "/*"@,
        data::language_table()[32].block_comments@[0].1@ == "*/"@,
        data::language_table()[33].name@ == "Less"@,
        data::language_table()[33].nested_blocks == false,
        data::language_table()[33].patterns@.len() == 1,
        data::language_table()[33].patterns@[0]@ == "*.less"@,
        data::language_table()[33].line_comments@.len() == 1,
        data::language_table()[33].line_comments@[0]@ == "//"@,
        data::language_table()[33].keywords@.len() == 0,
        data::language_table()[33].shebangs@.len() == 0,
        data::language_table()[33].block_comments@.len() == 1,
        data::language_table()[33].block_comments@[0].0@ == "/*"@,
        data::language_table()[33].block_comments@[0].1@ == "*/"@,
        data::language_table()[34].name@ == "Lua"@,
        data::language_table()[34].nested_blocks == false,
        data::language_table()[34].patterns@.len() == 1,
        data::language_table()[34].patterns@[0]@ == "*.lua"@,
        data::language_table()[34].line_comments@.len() == 1,
        data::language_table()[34].line_comments@[0]@ == "--"@,
        data::language_table()[34].keywords@.len() == 3,
        data::language_table()[34].keywords@[0]@ == "local"@,
        data::language_table()[34].keywords@[1]@ == "function"@,
        data::language_table()[34].keywords@[2]@ == "end"@,
        data::language_table()[34].shebangs@.len() == 1,
        data::language_table()[34].shebangs@[0]@ == "#!/usr/bin/env lua"@,
        data::language_table()[34].block_comments@.len() == 1,
        data::language_table()[34].block_comments@[0].0@ == "--[["@,
        data::language_table()[34].block_comments@[0].1@ == "]]"@,
        data::language_table()[35].name@ == "MATLAB"@,
        data::language_table()[35].nested_blocks == false,
        data::language_table()[35].patterns@.len() == 1,
        data::language_table()[35].patterns@[0]@ == "*.m"@,
        data::language_table()[35].line_comments@.len() == 1,
        data::language_table()[35].line_comments@[0]@ == "%"@,
        data::language_table()[35].keywords@.len() == 4,
        data::language_table()[35].keywords@[0]@ == "function"@,
        data::language_table()[35].keywords@[1]@ == "end"@,
        data::language_table()[35].keywords@[2]@ == "endfunction"@,
        data::language_table()[35].keywords@[3]@ == "zeros"@,
        data::language_table()[35].shebangs@.len() == 0,
        data::language_table()[35].block_comments@.len() == 1,
        data::language_table()[35].block_comments@[0].0@ == "%{"@,
        data::language_table()[35].block_comments@[0].1@ == "%}"@,
        data::language_table()[36].name@ == "Makefile"@,
        data::language_table()[36].nested_blocks == false,
        data::language_table()[36].patterns@.len() == 3,
        data::language_table()[36].patterns@[0]@ == "Makefile"@,
        data::language_table()[36].patterns@[1]@ == "GNUmakefile"@,
        data::language_table()[36].patterns@[2]@ == "*.mk"@,
        data::language_table()[36].line_comments@.len() == 1,
        data::language_table()[36].line_comments@[0]@ == "#"@,
        data::language_table()[36].keywords@.len() == 0,
        data::language_table()[36].shebangs@.len() == 0,
        data::language_table()[36].block_comments@.len() == 0,
        data::language_table()[37].name@ == "Markdown"@,
        data::language_table()[37].nested_blocks == false,
        data::language_table()[37].patterns@.len() == 2,
        data::language_table()[37].patterns@[0]@ == "*.md"@,
        data::language_table()[37].patterns@[1]@ == "*.markdown"@,
        data::language_table()[37].line_comments@.len() == 0,
        data::language_table()[37].keywords@.len() == 0,
        data::language_table()[37].shebangs@.len() == 0,
        data::language_table()[37].block_comments@.len() == 1,
        data::language_table()[37].block_comments@[0].0@ == "<!--"@,
        data::language_table()[37].block_comments@[0].1@ == "-->"@,
        data::language_table()[38].name@ == "Nginx Config"@,
        data::language_table()[38].nested_blocks == false,
        data::language_table()[38].patterns@.len() == 1,
        data::language_table()[38].patterns@[0]@ == "nginx.conf"@,
        data::language_table()[38].line_comments@.len() == 1,
        data::language_table()[38].line_comments@[0]@ == "#"@,
        data::language_table()[38].keywords@.len() == 0,
        data::language_table()[38].shebangs@.len() == 0,
        data::language_table()[38].block_comments@.len() == 0,
        data::language_table()[39].name@ == "Nim"@,
        data::language_table()[39].nested_blocks == true,
        data::language_table()[39].patterns@.len() == 1,
        data::language_table()[39].patterns@[0]@ == "*.nim"@,
        data::language_table()[39].line_comments@.len() == 1,
        data::language_table()[39].line_comments@[0]@ == "#"@,
        data::language_table()[39].keywords@.len() == 0,
        data::language_table()[39].shebangs@.len() == 0,
        data::language_table()[39].block_comments@.len() == 1,
        data::language_table()[39].block_comments@[0].0@ == "#["@,
        data::language_table()[39].block_comments@[0].1@ == "]#"@,
{
    reveal(data::language_table);
    reveal(data::common_languages);
    let t = data::common_languages();
    assert(t.len() == 72);
    assert(data::language_table()[32] == t[32]);
    assert(data::language_table()[33] == t[33]);
    assert(data::language_table()[34] == t[34]);
    assert(data::language_table()[35] == t[35]);
    assert(data::language_table()[36] == t[36]);
    assert(data::language_table()[37] == t[37]);
    assert(data::language_table()[38] == t[38]);
    assert(data::language_table()[39] == t[39]);
}

/// How the languages that are known best are named and written: the sixth of
/// them in the order in which they are tried.
pub proof fn the_sixth_languages_are_written_so()
    ensures
        data::language_table().len() >= 72,
        data::language_table()[40].name@ == "Nix"@,
        data::language_table()[40].nested_blocks == false,
        data::language_table()[40].patterns@.len() == 1,
        data::language_table()[40].patterns@[0]@ == "*.nix"@,
        data::language_table()[40].line_comments@.len() == 1,
        data::language_table()[40].line_comments@[0]@ == "#"@,
        data::language_table()[40].keywords@.len() == 0,
        data::language_table()[40].shebangs@.len() == 0,
        data::language_table()[40].block_comments@.len() == 1,
        data::language_table()[40].block_comments@[0].0@ == "/*"@,
        data::language_table()[40].block_comments@[0].1@ == "*/"@,
        data::language_table()[41].name@ == "OCaml"@,
        data::language_table()[41].nested_blocks == true,
        data::language_table()[41].patterns@.len() == 2,
        data::language_table()[41].patterns@[0]@ == "*.ml"@,
        data::language_table()[41].patterns@[1]@ == "*.mli"@,
        data::language_table()[41].line_comments@.len() == 0,
        data::language_table()[41].keywords@.len() == 0,
        data::language_table()[41].shebangs@.len() == 0,
        data::language_table()[41].block_comments@.len() == 1,
        data::language_table()[41].block_comments@[0].0@ == "(*"@,
        data::language_table()[41].block_comments@[0].1@ == "*)"@,
        data::language_table()[42].name@ == "Objective-C"@,
        data::language_table()[42].nested_blocks == false,
        data::language_table()[42].patterns@.len() == 2,
        data::language_table()[42].patterns@[0]@ == "*.m"@,
        data::language_table()[42].patterns@[1]@ == "*.mm"@,
        data::language_table()[42].line_comments@.len() == 1,
        data::language_table()[42].line_comments@[0]@ == "//"@,
        data::language_table()[42].keywords@.len() == 5,
        data::language_table()[42].keywords@[0]@ == "@interface"@,
        data::language_table()[42].keywords@[1]@ == "@implementation"@,
        data::language_table()[42].keywords@[2]@ == "@property"@,
        data::language_table()[42].keywords@[3]@ == "@end"@,
        data::language_table()[42].keywords@[4]@ == "#import"@,
        data::language_table()[42].shebangs@.len() == 0,
        data::language_table()[42].block_comments@.len() == 1,
        data::language_table()[42].block_comments@[0].0@ == "/*"@,
        data::language_table()[42].block_comments@[0].1@ == "*/"@,
        data::language_table()[43].name@ == "Org"@,
        data::language_table()[43].nested_blocks == false,
        data::language_table()[43].patterns@.len() == 1,
        data::language_table()[43].patterns@[0]@ == "*.org"@,
        data::language_table()[43].line_comments@.len() == 1,
        data::language_table()[43].line_comments@[0]@ == "# "@,
        data::language_table()[43].keywords@.len() == 0,
        data::language_table()[43].shebangs@.len() == 0,
        data::language_table()[43].block_comments@.len() == 0,
        data::language_table()[44].name@ == "PHP"@,
        data::language_table()[44].nested_blocks == false,
        data::language_table()[44].patterns@.len() == 1,
        data::language_table()[44].patterns@[0]@ == "*.php"@,
        data::language_table()[44].line_comments@.len() == 2,
        data::language_table()[44].line_comments@[0]@ == "//"@,
        data::language_table()[44].line_comments@[1]@ == "#"@,
        data::language_table()[44].keywords@.len() == 2,
        data::language_table()[44].keywords@[0]@ == "<?php"@,
        data::language_table()[44].keywords@[1]@ == "function"@,
        data::language_table()[44].shebangs@.len() == 1,
        data::language_table()[44].shebangs@[0]@ == "#!/usr/bin/env php"@,
        data::language_table()[44].block_comments@.len() == 1,
        data::language_table()[44].block_comments@[0].0@ == "/*"@,
        data::language_table()[44].block_comments@[0].1@ == "*/"@,
        data::language_table()[45].name@ == "Perl"@,
        data::language_table()[45].nested_blocks == false,
        data::language_table()[45].patterns@.len() == 2,
        data::language_table()[45].patterns@[0]@ == "*.pl"@,
        data::language_table()[45].patterns@[1]@ == "*.pm"@,
        data::language_table()[45].line_comments@.len() == 1,
        data::language_table()[45].line_comments@[0]@ == "#"@,
        data::language_table()[45].keywords@.len() == 3,
        data::language_table()[45].keywords@[0]@ == "my"@,
        data::language_table()[45].keywords@[1]@ == "sub"@,
        data::language_table()[45].keywords@[2]@ == "use"@,
        data::language_table()[45].shebangs@.len() == 2,
        data::language_table()[45].shebangs@[0]@ == "#!/usr/bin/env perl"@,
        data::language_table()[45].shebangs@[1]@ == "#!/usr/bin/perl"@,
        data::language_table()[45].block_comments@.len() == 1,
        data::language_table()[45].block_comments@[0].0@ == "=pod"@,
        data::language_table()[45].block_comments@[0].1@ == "=cut"@,
        data::language_table()[46].name@ == "PowerShell"@,
        data::language_table()[46].nested_blocks == false,
        data::language_table()[46].patterns@.len() == 2,
        data::language_table()[46].patterns@[0]@ == "*.ps1"@,
        data::language_table()[46].patterns@[1]@ == "*.psm1"@,
        data::language_table()[46].line_comments@.len() == 1,
        data::language_table()[46].line_comments@[0]@ == "#"@,
        data::language_table()[46].keywords@.len() == 0,
        data::language_table()[46].shebangs@.len() == 0,
        data::language_table()[46].block_comments@.len() == 1,
        data::language_table()[46].block_comments@[0].0@ == "<#"@,
        data::language_table()[46].block_comments@[0].1@ == "#>"@,
        data::language_table()[47].name@ == "Protocol Buffers"@,
        data::language_table()[47].nested_blocks == false,
        data::language_table()[47].patterns@.len() == 1,
        data::language_table()[47].patterns@[0]@ == "*.proto"@,
        data::language_table()[47].line_comments@.len() == 1,
        data::language_table()[47].line_comments@[0]@ == "//"@,
        data::language_table()[47].keywords@.len() == 0,
        data::language_table()[47].shebangs@.len() == 0,
        data::language_table()[47].block_comments@.len() == 1,
        data::language_table()[47].block_comments@[0].0@ == "/*"@,
        data::language_table()[47].block_comments@[0].1@ == "*/"@,
{
    reveal(data::language_table);
    reveal(data::common_languages);
    let t = data::common_languages();
    assert(t.len() == 72);
    assert(data::language_table()[40] == t[40]);
    assert(data::language_table()[41] == t[41]);
    assert(data::language_table()[42] == t[42]);
    assert(data::language_table()[43] == t[43]);
    assert(data::language_table()[44] == t[44]);
    assert(data::language_table()[45] == t[45]);
    assert(data::language_table()[46] == t[46]);
    assert(data::language_table()[47] == t[47]);
}

/// How the languages that are known best are named and written: the seventh of
/// them in the order in which they are tried.
pub proof fn the_seventh_languages_are_written_so()
    ensures
        data::language_table().len() >= 72,
        data::language_table()[48].name@ == "Python"@,
        data::language_table()[48].nested_blocks == false,
        data::language_table()[48].patterns@.len() == 3,
        data::language_table()[48].patterns@[0]@ == "*.py"@,
        data::language_table()[48].patterns@[1]@ == "*.pyi"@,
        data::language_table()[48].patterns@[2]@ == "*.pyw"@,
        data::language_table()[48].line_comments@.len() == 1,
        data::language_table()[48].line_comments@[0]@ == "#"@,
        data::language_table()[48].keywords@.len() == 3,
        data::language_table()[48].keywords@[0]@ == "def"@,
        data::language_table()[48].keywords@[1]@ == "import"@,
        data::language_table()[48].keywords@[2]@ == "class"@,
        data::language_table()[48].shebangs@.len() == 3,
        data::language_table()[48].shebangs@[0]@ == "#!/usr/bin/env python"@,
        data::language_table()[48].shebangs@[1]@ == "#!/usr/bin/python"@,
        data::language_table()[48].shebangs@[2]@ == "#!/usr/local/bin/python"@,
        data::language_table()[48].block_comments@.len() == 2,
        data::language_table()[48].block_comments@[0].0@ == "\"\"\""@,
        data::language_table()[48].block_comments@[0].1@ == "\"\"\""@,
        data::language_table()[48].block_comments@[1].0@ == "'''"@,
        data::language_table()[48].block_comments@[1].1@ == "'''"@,
        data::language_table()[49].name@ == "R"@,
        data::language_table()[49].nested_blocks == false,
        data::language_table()[49].patterns@.len() == 1,
        data::language_table()[49].patterns@[0]@ == "*.r"@,
        data::language_table()[49].line_comments@.len() == 1,
        data::language_table()[49].line_comments@[0]@ == "#"@,
        data::language_table()[49].keywords@.len() == 0,
        data::language_table()[49].shebangs@.len() == 1,
        data::language_table()[49].shebangs@[0]@ == "#!/usr/bin/env Rscript"@,
        data::language_table()[49].block_comments@.len() == 0,
        data::language_table()[50].name@ == "Roff"@,
        data::language_table()[50].nested_blocks == false,
        data::language_table()[50].patterns@.len() == 2,
        data::language_table()[50].patterns@[0]@ == "*.man"@,
        data::language_table()[50].patterns@[1]@ == "*.1"@,
        data::language_table()[50].line_comments@.len() == 1,
        data::language_table()[50].line_comments@[0]@ == ".\\\""@,
        data::language_table()[50].keywords@.len() == 0,
        data::language_table()[50].shebangs@.len() == 0,
        data::language_table()[50].block_comments@.len() == 0,
        data::language_table()[51].name@ == "Ruby"@,
        data::language_table()[51].nested_blocks == false,
        data::language_table()[51].patterns@.len() == 4,
        data::language_table()[51].patterns@[0]@ == "*.rb"@,
        data::language_table()[51].patterns@[1]@ == "Rakefile"@,
        data::language_table()[51].patterns@[2]@ == "*.rake"@,
        data::language_table()[51].patterns@[3]@ == "*.gemspec"@,
        data::language_table()[51].line_comments@.len() == 1,
        data::language_table()[51].line_comments@[0]@ == "#"@,
        data::language_table()[51].keywords@.len() == 3,
        data::language_table()[51].keywords@[0]@ == "def"@,
        data::language_table()[51].keywords@[1]@ == "end"@,
        data::language_table()[51].keywords@[2]@ == "require"@,
        data::language_table()[51].shebangs@.len() == 2,
        data::language_table()[51].shebangs@[0]@ == "#!/usr/bin/env ruby"@,
        data::language_table()[51].shebangs@[1]@ == "#!/usr/bin/ruby"@,
        data::language_table()[51].block_comments@.len() == 1,
        data::language_table()[51].block_comments@[0].0@ == "=begin"@,
        data::language_table()[51].block_comments@[0].1@ == "=end"@,
        data::language_table()[52].name@ == "Rust"@,
        data::language_table()[52].nested_blocks == true,
        data::language_table()[52].patterns@.len() == 1,
        data::language_table()[52].patterns@[0]@ == "*.rs"@,
        data::language_table()[52].line_comments@.len() == 1,
        data::language_table()[52].line_comments@[0]@ == "//"@,
        data::language_table()[52].keywords@.len() == 3,
        data::language_table()[52].keywords@[0]@ == "fn"@,
        data::language_table()[52].keywords@[1]@ == "let"@,
        data::language_table()[52].keywords@[2]@ == "impl"@,
        data::language_table()[52].shebangs@.len() == 0,
        data::language_table()[52].block_comments@.len() == 1,
        data::language_table()[52].block_comments@[0].0@ == "/*"@,
        data::language_table()[52].block_comments@[0].1@ == "*/"@,
        data::language_table()[53].name@ == "SCSS"@,
        data::language_table()[53].nested_blocks == false,
        data::language_table()[53].patterns@.len() == 1,
        data::language_table()[53].patterns@[0]@ == "*.scss"@,
        data::language_table()[53].line_comments@.len() == 1,
        data::language_table()[53].line_comments@[0]@ == "//"@,
        data::language_table()[53].keywords@.len() == 0,
        data::language_table()[53].shebangs@.len() == 0,
        data::language_table()[53].block_comments@.len() == 1,
        data::language_table()[53].block_comments@[0].0@ == "/*"@,
        data::language_table()[53].block_comments@[0].1@ == "*/"@,
        data::language_table()[54].name@ == "SQL"@,
        data::language_table()[54].nested_blocks == false,
        data::language_table()[54].patterns@.len() == 1,
        data::language_table()[54].patterns@[0]@ == "*.sql"@,
        data::language_table()[54].line_comments@.len() == 1,
        data::language_table()[54].line_comments@[0]@ == "--"@,
        data::language_table()[54].keywords@.len() == 3,
        data::language_table()[54].keywords@[0]@ == "select"@,
        data::language_table()[54].keywords@[1]@ == "from"@,
        data::language_table()[54].keywords@[2]@ == "where"@,
        data::language_table()[54].shebangs@.len() == 0,
        data::language_table()[54].block_comments@.len() == 1,
        data::language_table()[54].block_comments@[0].0@ == "/*"@,
        data::language_table()[54].block_comments@[0].1@ == "*/"@,
        data::language_table()[55].name@ == "SVG"@,
        data::language_table()[55].nested_blocks == false,
        data::language_table()[55].patterns@.len() == 1,
        data::language_table()[55].patterns@[0]@ == "*.svg"@,
        data::language_table()[55].line_comments@.len() == 0,
        data::language_table()[55].keywords@.len() == 0,
        data::language_table()[55].shebangs@.len() == 0,
        data::language_table()[55].block_comments@.len() == 1,
        data::language_table()[55].block_comments@[0].0@ == "<!--"@,
        data::language_table()[55].block_comments@[0].1@ == "-->"@,
{
    reveal(data::language_table);
    reveal(data::common_languages);
    let t = data::common_languages();
    assert(t.len() == 72);
    assert(data::language_table()[48] == t[48]);
    assert(data::language_table()[49] == t[49]);
    assert(data::language_table()[50] == t[50]);
    assert(data::language_table()[51] == t[51]);
    assert(data::language_table()[52] == t[52]);
    assert(data::language_table()[53] == t[53]);
    assert(data::language_table()[54] == t[54]);
    assert(data::language_table()[55] == t[55]);
}

/// How the languages that are known best are named and written: the eighth of
/// them in the order in which they are tried.
pub proof fn the_eighth_languages_are_written_so()
    ensures
        data::language_table().len() >= 72,
        data::language_table()[56].name@ == "Sass"@,
        data::language_table()[56].nested_blocks == false,
        data::language_table()[56].patterns@.len() == 1,
        data::language_table()[56].patterns@[0]@ == "*.sass"@,
        data::language_table()[56].line_comments@.len() == 1,
        data::language_table()[56].line_comments@[0]@ == "//"@,
        data::language_table()[56].keywords@.len() == 0,
        data::language_table()[56].shebangs@.len() == 0,
        data::language_table()[56].block_comments@.len() == 1,
        data::language_table()[56].block_comments@[0].0@ == "/*"@,
        data::language_table()[56].block_comments@[0].1@ == "*/"@,
        data::language_table()[57].name@ == "Scala"@,
        data::language_table()[57].nested_blocks == true,
        data::language_table()[57].patterns@.len() == 2,
        data::language_table()[57].patterns@[0]@ == "*.scala"@,
        data::language_table()[57].patterns@[1]@ == "*.sc"@,
        data::language_table()[57].line_comments@.len() == 1,
        data::language_table()[57].line_comments@[0]@ == "//"@,
        data::language_table()[57].keywords@.len() == 3,
        data::language_table()[57].keywords@[0]@ == "object"@,
        data::language_table()[57].keywords@[1]@ == "def"@,
        data::language_table()[57].keywords@[2]@ == "val"@,
        data::language_table()[57].shebangs@.len() == 0,
        data::language_table()[57].block_comments@.len() == 1,
        data::language_table()[57].block_comments@[0].0@ == "/*"@,
        data::language_table()[57].block_comments@[0].1@ == "*/"@,
        data::language_table()[58].name@ == "Solidity"@,
        data::language_table()[58].nested_blocks == false,
        data::language_table()[58].patterns@.len() == 1,
        data::language_table()[58].patterns@[0]@ == "*.sol"@,
        data::language_table()[58].line_comments@.len() == 1,
        data::language_table()[58].line_comments@[0]@ == "//"@,
        data::language_table()[58].keywords@.len() == 0,
        data::language_table()[58].shebangs@.len() == 0,
        data::language_table()[58].block_comments@.len() == 1,
        data::language_table()[58].block_comments@[0].0@ == "/*"@,
        data::language_table()[58].block_comments@[0].1@ == "*/"@,
        data::language_table()[59].name@ == "Svelte"@,
        data::language_table()[59].nested_blocks == false,
        data::language_table()[59].patterns@.len() == 1,
        data::language_table()[59].patterns@[0]@ == "*.svelte"@,
        data::language_table()[59].line_comments@.len() == 1,
        data::language_table()[59].line_comments@[0]@ == "//"@,
        data::language_table()[59].keywords@.len() == 0,
        data::language_table()[59].shebangs@.len() == 0,
        data::language_table()[59].block_comments@.len() == 2,
        data::language_table()[59].block_comments@[0].0@ == "<!--"@,
        data::language_table()[59].block_comments@[0].1@ == "-->"@,
        data::language_table()[59].block_comments@[1].0@ == "/*"@,
        data::language_table()[59].block_comments@[1].1@ == "*/"@,
        data::language_table()[60].name@ == "Swift"@,
        data::language_table()[60].nested_blocks == true,
        data::language_table()[60].patterns@.len() == 1,
        data::language_table()[60].patterns@[0]@ == "*.swift"@,
        data::language_table()[60].line_comments@.len() == 1,
        data::language_table()[60].line_comments@[0]@ == "//"@,
        data::language_table()[60].keywords@.len() == 3,
        data::language_table()[60].keywords@[0]@ == "func"@,
        data::language_table()[60].keywords@[1]@ == "import"@,
        data::language_table()[60].keywords@[2]@ == "let"@,
        data::language_table()[60].shebangs@.len() == 1,
        data::language_table()[60].shebangs@[0]@ == "#!/usr/bin/env swift"@,
        data::language_table()[60].block_comments@.len() == 1,
        data::language_table()[60].block_comments@[0].0@ == "/*"@,
        data::language_table()[60].block_comments@[0].1@ == "*/"@,
        data::language_table()[61].name@ == "TOML"@,
        data::language_table()[61].nested_blocks == false,
        data::language_table()[61].patterns@.len() == 1,
        data::language_table()[61].patterns@[0]@ == "*.toml"@,
        data::language_table()[61].line_comments@.len() == 1,
        data::language_table()[61].line_comments@[0]@ == "#"@,
        data::language_table()[61].keywords@.len() == 0,
        data::language_table()[61].shebangs@.len() == 0,
        data::language_table()[61].block_comments@.len() == 0,
        data::language_table()[62].name@ == "Terraform"@,
        data::language_table()[62].nested_blocks == false,
        data::language_table()[62].patterns@.len() == 2,
        data::language_table()[62].patterns@[0]@ == "*.tf"@,
        data::language_table()[62].patterns@[1]@ == "*.tfvars"@,
        data::language_table()[62].line_comments@.len() == 2,
        data::language_table()[62].line_comments@[0]@ == "#"@,
        data::language_table()[62].line_comments@[1]@ == "//"@,
        data::language_table()[62].keywords@.len() == 0,
        data::language_table()[62].shebangs@.len() == 0,
        data::language_table()[62].block_comments@.len() == 1,
        data::language_table()[62].block_comments@[0].0@ == "/*"@,
        data::language_table()[62].block_comments@[0].1@ == "*/"@,
        data::language_table()[63].name@ == "Textile"@,
        data::language_table()[63].nested_blocks == false,
        data::language_table()[63].patterns@.len() == 1,
        data::language_table()[63].patterns@[0]@ == "*.textile"@,
        data::language_table()[63].line_comments@.len() == 0,
        data::language_table()[63].keywords@.len() == 0,
        data::language_table()[63].shebangs@.len() == 0,
        data::language_table()[63].block_comments@.len() == 0,
{
    reveal(data::language_table);
    reveal(data::common_languages);
    let t = data::common_languages();
    assert(t.len() == 72);
    assert(data::language_table()[56] == t[56]);
    assert(data::language_table()[57] == t[57]);
    assert(data::language_table()[58] == t[58]);
    assert(data::language_table()[59] == t[59]);
    assert(data::language_table()[60] == t[60]);
    assert(data::language_table()[61] == t[61]);
    assert(data::language_table()[62] == t[62]);
    assert(data::language_table()[63] == t[63]);
}

/// How the languages that are known best are named and written: the ninth of
/// them in the order in which they are tried.
pub proof fn the_ninth_languages_are_written_so()
    ensures
        data::language_table().len() >= 72,
        data::language_table()[64].name@ == "TypeScript"@,
        data::language_table()[64].nested_blocks == false,
        data::language_table()[64].patterns@.len() == 4,
        data::language_table()[64].patterns@[0]@ == "*.ts"@,
        data::language_table()[64].patterns@[1]@ == "*.tsx"@,
        data::language_table()[64].patterns@[2]@ == "*.mts"@,
        data::language_table()[64].patterns@[3]@ == "*.cts"@,
        data::language_table()[64].line_comments@.len() == 1,
        data::language_table()[64].line_comments@[0]@ == "//"@,
        data::language_table()[64].keywords@.len() == 3,
        data::language_table()[64].keywords@[0]@ == "interface"@,
        data::language_table()[64].keywords@[1]@ == "export"@,
        data::language_table()[64].keywords@[2]@ == "const"@,
        data::language_table()[64].shebangs@.len() == 0,
        data::language_table()[64].block_comments@.len() == 1,
        data::language_table()[64].block_comments@[0].0@ == "/*"@,
        data::language_table()[64].block_comments@[0].1@ == "*/"@,
        data::language_table()[65].name@ == "Vim Script"@,
        data::language_table()[65].nested_blocks == false,
        data::language_table()[65].patterns@.len() == 2,
        data::language_table()[65].patterns@[0]@ == "*.vim"@,
        data::language_table()[65].patterns@[1]@ == ".vimrc"@,
        data::language_table()[65].line_comments@.len() == 1,
        data::language_table()[65].line_comments@[0]@ == "\""@,
        data::language_table()[65].keywords@.len() == 0,
        data::language_table()[65].shebangs@.len() == 0,
        data::language_table()[65].block_comments@.len() == 0,
        data::language_table()[66].name@ == "Vue"@,
        data::language_table()[66].nested_blocks == false,
        data::language_table()[66].patterns@.len() == 1,
        data::language_table()[66].patterns@[0]@ == "*.vue"@,
        data::language_table()[66].line_comments@.len() == 1,
        data::language_table()[66].line_comments@[0]@ == "//"@,
        data::language_table()[66].keywords@.len() == 0,
        data::language_table()[66].shebangs@.len() == 0,
        data::language_table()[66].block_comments@.len() == 2,
        data::language_table()[66].block_comments@[0].0@ == "<!--"@,
        data::language_table()[66].block_comments@[0].1@ == "-->"@,
        data::language_table()[66].block_comments@[1].0@ == "/*"@,
        data::language_table()[66].block_comments@[1].1@ == "*/"@,
        data::language_table()[67].name@ == "WiX"@,
        data::language_table()[67].nested_blocks == false,
        data::language_table()[67].patterns@.len() == 2,
        data::language_table()[67].patterns@[0]@ == "*.wxs"@,
        data::language_table()[67].patterns@[1]@ == "*.wxi"@,
        data::language_table()[67].line_comments@.len() == 0,
        data::language_table()[67].keywords@.len() == 0,
        data::language_table()[67].shebangs@.len() == 0,
        data::language_table()[67].block_comments@.len() == 1,
        data::language_table()[67].block_comments@[0].0@ == "<!--"@,
        data::language_table()[67].block_comments@[0].1@ == "-->"@,
        data::language_table()[68].name@ == "XML"@,
        data::language_table()[68].nested_blocks == false,
        data::language_table()[68].patterns@.len() == 3,
        data::language_table()[68].patterns@[0]@ == "*.xml"@,
        data::language_table()[68].patterns@[1]@ == "*.xsd"@,
        data::language_table()[68].patterns@[2]@ == "*.xsl"@,
        data::language_table()[68].line_comments@.len() == 0,
        data::language_table()[68].keywords@.len() == 0,
        data::language_table()[68].shebangs@.len() == 0,
        data::language_table()[68].block_comments@.len() == 1,
        data::language_table()[68].block_comments@[0].0@ == "<!--"@,
        data::language_table()[68].block_comments@[0].1@ == "-->"@,
        data::language_table()[69].name@ == "YAML"@,
        data::language_table()[69].nested_blocks == false,
        data::language_table()[69].patterns@.len() == 2,
        data::language_table()[69].patterns@[0]@ == "*.yaml"@,
        data::language_table()[69].patterns@[1]@ == "*.yml"@,
        data::language_table()[69].line_comments@.len() == 1,
        data::language_table()[69].line_comments@[0]@ == "#"@,
        data::language_table()[69].keywords@.len() == 0,
        data::language_table()[69].shebangs@.len() == 0,
        data::language_table()[69].block_comments@.len() == 0,
        data::language_table()[70].name@ == "Zig"@,
        data::language_table()[70].nested_blocks == false,
        data::language_table()[70].patterns@.len() == 1,
        data::language_table()[70].patterns@[0]@ == "*.zig"@,
        data::language_table()[70].line_comments@.len() == 1,
        data::language_table()[70].line_comments@[0]@ == "//"@,
        data::language_table()[70].keywords@.len() == 0,
        data::language_table()[70].shebangs@.len() == 0,
        data::language_table()[70].block_comments@.len() == 0,
        data::language_table()[71].name@ == "reStructuredText"@,
        data::language_table()[71].nested_blocks == false,
        data::language_table()[71].patterns@.len() == 1,
        data::language_table()[71].patterns@[0]@ == "*.rst"@,
        data::language_table()[71].line_comments@.len() == 1,
        data::language_table()[71].line_comments@[0]@ == ".. "@,
        data::language_table()[71].keywords@.len() == 0,
        data::language_table()[71].shebangs@.len() == 0,
        data::language_table()[71].block_comments@.len() == 0,
{
    reveal(data::language_table);
    reveal(data::common_languages);
    let t = data::common_languages();
    assert(t.len() == 72);
    assert(data::language_table()[64] == t[64]);
    assert(data::language_table()[65] == t[65]);
    assert(data::language_table()[66] == t[66]);
    assert(data::language_table()[67] == t[67]);
    assert(data::language_table()[68] == t[68]);
    assert(data::language_table()[69] == t[69]);
    assert(data::language_table()[70] == t[70]);
    assert(data::language_table()[71] == t[71]);
}

} // verus!
