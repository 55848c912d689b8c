//! Further languages, by the way their comments are written.

use vstd::prelude::*;

use super::data::Language;

verus! {

/// How comments are written.
#[derive(Debug, Clone, Copy)]
pub struct Comments {
    pub line: &'static [&'static str],
    pub blocks: &'static [(&'static str, &'static str)],
    pub nested: bool,
}

/// A language and how its files are named.
#[derive(Debug, Clone, Copy)]
pub struct Named {
    pub name: &'static str,
    pub patterns: &'static [&'static str],
}

/// The languages of a list, with the comments that they share.
pub open spec fn commented(list: Seq<Named>, c: Comments) -> Seq<Language> {
    Seq::new(list.len(), |i: int| marked(list[i].name, list[i].patterns, c))
}

/// A language without keywords or shebangs of its own.
pub open spec fn marked(
    name: &'static str,
    patterns: &'static [&'static str],
    c: Comments,
) -> Language {
    Language {
        name,
        patterns,
        line_comments: c.line,
        block_comments: c.blocks,
        nested_blocks: c.nested,
        keywords: &[],
        shebangs: &[],
    }
}

/// Appends the languages of a list.
fn push_all(out: &mut Vec<Language>, list: &[Named], c: Comments)
    ensures
        final(out)@ == old(out)@ + commented(list@, c),
{
    let n: usize = list.len();
    let mut i: usize = 0;
    proof {
        assert(out@ =~= old(out)@ + commented(list@, c).take(0));
    }
    while i < n
        invariant
            n == list@.len(),
            i <= n,
            out@ == old(out)@ + commented(list@, c).take(i as int),
        decreases n - i,
    {
        let l = Language {
            name: list[i].name,
            patterns: list[i].patterns,
            line_comments: c.line,
            block_comments: c.blocks,
            nested_blocks: c.nested,
            keywords: &[],
            shebangs: &[],
        };
        let ghost before = out@;
        out.push(l);
        proof {
            assert(l == commented(list@, c)[i as int]);
            assert(commented(list@, c).take(i + 1) =~= commented(list@, c).take(i as int).push(l));
            assert(out@ =~= old(out)@ + commented(list@, c).take(i + 1));
        }
        i += 1;
    }
    proof {
        assert(commented(list@, c).take(n as int) =~= commented(list@, c));
    }
}

/// Comments are written with `//` and `/* */`.
pub open spec fn slash_comments() -> Comments {
    Comments { line: &["//"], blocks: &[("/*", "*/")], nested: false }
}

fn slash_comments_value() -> (r: Comments)
    ensures
        r == slash_comments(),
{
    Comments { line: &["//"], blocks: &[("/*", "*/")], nested: false }
}

/// Languages whose comments are written with `//` and `/* */`.
#[verifier::opaque]
pub open spec fn slash_languages_first() -> Seq<Named> {
    seq![
        Named { name: "4D", patterns: &["*.4dm"] },
        Named { name: "AGS Script", patterns: &["*.asc"] },
        Named { name: "AIDL", patterns: &["*.aidl"] },
        Named { name: "AL", patterns: &["*.al"] },
        Named { name: "ANTLR", patterns: &["*.g4"] },
        Named { name: "ActionScript", patterns: &["*.as"] },
        Named { name: "AngelScript", patterns: &["*.angelscript"] },
        Named { name: "Apex", patterns: &["*.cls", "*.apex", "*.trigger"] },
        Named { name: "ArkTS", patterns: &["*.ets"] },
        Named { name: "AspectJ", patterns: &["*.aj"] },
        Named { name: "Asymptote", patterns: &["*.asy"] },
        Named { name: "BAML", patterns: &["*.baml"] },
        Named { name: "Ballerina", patterns: &["*.bal"] },
        Named { name: "Beef", patterns: &["*.bf"] },
        Named { name: "Bicep", patterns: &["*.bicep", "*.bicepparam"] },
        Named { name: "Bison", patterns: &["*.bison"] },
        Named { name: "Bluespec", patterns: &["*.bsv"] },
        Named { name: "Boogie", patterns: &["*.bpl"] },
        Named { name: "C3", patterns: &["*.c3"] },
        Named { name: "CAP CDS", patterns: &["*.cds"] },
        Named { name: "CUE", patterns: &["*.cue"] },
        Named { name: "Cadence", patterns: &["*.cdc"] },
        Named { name: "Cairo", patterns: &["*.cairo"] },
        Named { name: "Cangjie", patterns: &["*.cj"] },
        Named { name: "Carbon", patterns: &["*.carbon"] },
        Named { name: "CartoCSS", patterns: &["*.mss"] },
        Named { name: "Ceylon", patterns: &["*.ceylon"] },
        Named { name: "ChucK", patterns: &["*.ck"] },
        Named { name: "Circom", patterns: &["*.circom"] },
        Named { name: "Click", patterns: &["*.click"] },
        Named { name: "Closure Templates", patterns: &["*.soy"] },
        Named { name: "Clue", patterns: &["*.clue"] },
        Named { name: "CodeQL", patterns: &["*.ql", "*.qll"] },
        Named { name: "Cuda", patterns: &["*.cu", "*.cuh"] },
        Named { name: "Cycript", patterns: &["*.cy"] },
        Named { name: "Cypher", patterns: &["*.cyp", "*.cypher"] },
        Named { name: "DM", patterns: &["*.dm"] },
        Named { name: "Dafny", patterns: &["*.dfy"] },
        Named { name: "Daslang", patterns: &["*.das"] },
        Named { name: "DataWeave", patterns: &["*.dwl"] },
        Named { name: "ECL", patterns: &["*.ecl", "*.eclxml"] },
        Named { name: "EQ", patterns: &["*.eq"] },
        Named { name: "FLUX", patterns: &["*.fx", "*.flux"] },
        Named { name: "FPP", patterns: &["*.fpp", "*.fppi"] },
        Named { name: "Fantom", patterns: &["*.fan"] },
        Named { name: "Faust", patterns: &["*.dsp"] },
        Named { name: "GAML", patterns: &["*.gaml"] },
        Named { name: "GDShader", patterns: &["*.gdshader", "*.gdshaderinc"] },
        Named { name: "GLSL", patterns: &["*.glsl", "*.fp", "*.frag", "*.frg", "*.fsh", "*.fshader", "*.geo", "*.geom", "*.glslf", "*.glslv", "*.gshader", "*.rchit"] },
        Named { name: "GSC", patterns: &["*.gsc", "*.csc", "*.gsh"] },
        Named { name: "Game Maker Language", patterns: &["*.gml"] },
        Named { name: "Glimmer JS", patterns: &["*.gjs"] },
        Named { name: "Glimmer TS", patterns: &["*.gts"] },
        Named { name: "Gno", patterns: &["*.gno"] },
        Named { name: "Gosu", patterns: &["*.gst", "*.gsx", "*.vark"] },
        Named { name: "HIP", patterns: &["*.hip"] },
        Named { name: "HLSL", patterns: &["*.hlsl", "*.cginc", "*.fxh", "*.hlsli"] },
        Named { name: "Hack", patterns: &["*.hack", "*.hhi"] },
        Named { name: "Harbour", patterns: &["*.hb"] },
        Named { name: "Haxe", patterns: &["*.hx", "*.hxsl"] },
        Named { name: "HolyC", patterns: &["*.hc"] },
        Named { name: "IL Assembly", patterns: &["*.il"] },
        Named { name: "ISPC", patterns: &["*.ispc"] },
        Named { name: "ImHex Pattern Language", patterns: &["*.hexpat"] },
    ]
}

fn slash_languages_first_list() -> (r: Vec<Named>)
    ensures
        r@ == slash_languages_first(),
{
    let r: Vec<Named> = vec![
        Named { name: "4D", patterns: &["*.4dm"] },
        Named { name: "AGS Script", patterns: &["*.asc"] },
        Named { name: "AIDL", patterns: &["*.aidl"] },
        Named { name: "AL", patterns: &["*.al"] },
        Named { name: "ANTLR", patterns: &["*.g4"] },
        Named { name: "ActionScript", patterns: &["*.as"] },
        Named { name: "AngelScript", patterns: &["*.angelscript"] },
        Named { name: "Apex", patterns: &["*.cls", "*.apex", "*.trigger"] },
        Named { name: "ArkTS", patterns: &["*.ets"] },
        Named { name: "AspectJ", patterns: &["*.aj"] },
        Named { name: "Asymptote", patterns: &["*.asy"] },
        Named { name: "BAML", patterns: &["*.baml"] },
        Named { name: "Ballerina", patterns: &["*.bal"] },
        Named { name: "Beef", patterns: &["*.bf"] },
        Named { name: "Bicep", patterns: &["*.bicep", "*.bicepparam"] },
        Named { name: "Bison", patterns: &["*.bison"] },
        Named { name: "Bluespec", patterns: &["*.bsv"] },
        Named { name: "Boogie", patterns: &["*.bpl"] },
        Named { name: "C3", patterns: &["*.c3"] },
        Named { name: "CAP CDS", patterns: &["*.cds"] },
        Named { name: "CUE", patterns: &["*.cue"] },
        Named { name: "Cadence", patterns: &["*.cdc"] },
        Named { name: "Cairo", patterns: &["*.cairo"] },
        Named { name: "Cangjie", patterns: &["*.cj"] },
        Named { name: "Carbon", patterns: &["*.carbon"] },
        Named { name: "CartoCSS", patterns: &["*.mss"] },
        Named { name: "Ceylon", patterns: &["*.ceylon"] },
        Named { name: "ChucK", patterns: &["*.ck"] },
        Named { name: "Circom", patterns: &["*.circom"] },
        Named { name: "Click", patterns: &["*.click"] },
        Named { name: "Closure Templates", patterns: &["*.soy"] },
        Named { name: "Clue", patterns: &["*.clue"] },
        Named { name: "CodeQL", patterns: &["*.ql", "*.qll"] },
        Named { name: "Cuda", patterns: &["*.cu", "*.cuh"] },
        Named { name: "Cycript", patterns: &["*.cy"] },
        Named { name: "Cypher", patterns: &["*.cyp", "*.cypher"] },
        Named { name: "DM", patterns: &["*.dm"] },
        Named { name: "Dafny", patterns: &["*.dfy"] },
        Named { name: "Daslang", patterns: &["*.das"] },
        Named { name: "DataWeave", patterns: &["*.dwl"] },
        Named { name: "ECL", patterns: &["*.ecl", "*.eclxml"] },
        Named { name: "EQ", patterns: &["*.eq"] },
        Named { name: "FLUX", patterns: &["*.fx", "*.flux"] },
        Named { name: "FPP", patterns: &["*.fpp", "*.fppi"] },
        Named { name: "Fantom", patterns: &["*.fan"] },
        Named { name: "Faust", patterns: &["*.dsp"] },
        Named { name: "GAML", patterns: &["*.gaml"] },
        Named { name: "GDShader", patterns: &["*.gdshader", "*.gdshaderinc"] },
        Named { name: "GLSL", patterns: &["*.glsl", "*.fp", "*.frag", "*.frg", "*.fsh", "*.fshader", "*.geo", "*.geom", "*.glslf", "*.glslv", "*.gshader", "*.rchit"] },
        Named { name: "GSC", patterns: &["*.gsc", "*.csc", "*.gsh"] },
        Named { name: "Game Maker Language", patterns: &["*.gml"] },
        Named { name: "Glimmer JS", patterns: &["*.gjs"] },
        Named { name: "Glimmer TS", patterns: &["*.gts"] },
        Named { name: "Gno", patterns: &["*.gno"] },
        Named { name: "Gosu", patterns: &["*.gst", "*.gsx", "*.vark"] },
        Named { name: "HIP", patterns: &["*.hip"] },
        Named { name: "HLSL", patterns: &["*.hlsl", "*.cginc", "*.fxh", "*.hlsli"] },
        Named { name: "Hack", patterns: &["*.hack", "*.hhi"] },
        Named { name: "Harbour", patterns: &["*.hb"] },
        Named { name: "Haxe", patterns: &["*.hx", "*.hxsl"] },
        Named { name: "HolyC", patterns: &["*.hc"] },
        Named { name: "IL Assembly", patterns: &["*.il"] },
        Named { name: "ISPC", patterns: &["*.ispc"] },
        Named { name: "ImHex Pattern Language", patterns: &["*.hexpat"] },
    ];
    proof {
        reveal(slash_languages_first);
        assert(r@ =~= slash_languages_first());
    }
    r
}

/// Languages whose comments are written with `//` and `/* */`.
#[verifier::opaque]
pub open spec fn slash_languages_second() -> Seq<Named> {
    seq![
        Named { name: "ImageJ Macro", patterns: &["*.ijm"] },
        Named { name: "Ink", patterns: &["*.ink"] },
        Named { name: "JFlex", patterns: &["*.flex", "*.jflex"] },
        Named { name: "Jai", patterns: &["*.jai"] },
        Named { name: "Java Template Engine", patterns: &["*.jte"] },
        Named { name: "JavaScript+ERB", patterns: &["*.js.erb"] },
        Named { name: "Jison", patterns: &["*.jison"] },
        Named { name: "Jolie", patterns: &["*.ol", "*.iol"] },
        Named { name: "Jsonnet", patterns: &["*.jsonnet", "*.libsonnet"] },
        Named { name: "KRL", patterns: &["*.krl"] },
        Named { name: "KoLmafia ASH", patterns: &["*.ash"] },
        Named { name: "Koka", patterns: &["*.kk"] },
        Named { name: "LLVM TableGen", patterns: &["*.td"] },
        Named { name: "LSL", patterns: &["*.lsl", "*.lslp"] },
        Named { name: "Langium", patterns: &["*.langium"] },
        Named { name: "Lasso", patterns: &["*.lasso", "*.las", "*.lasso8", "*.lasso9"] },
        Named { name: "Leo", patterns: &["*.leo"] },
        Named { name: "Lex", patterns: &["*.lex", "Lexer.x"] },
        Named { name: "LigoLANG", patterns: &["*.ligo"] },
        Named { name: "Linker Script", patterns: &["*.ld", "*.lds", "ld.script"] },
        Named { name: "Lobster", patterns: &["*.lobster"] },
        Named { name: "Logos", patterns: &["*.xm", "*.xi"] },
        Named { name: "MQL4", patterns: &["*.mq4"] },
        Named { name: "MQL5", patterns: &["*.mq5"] },
        Named { name: "Metal", patterns: &["*.metal"] },
        Named { name: "MiniD", patterns: &["*.minid"] },
        Named { name: "Mint", patterns: &["*.mint"] },
        Named { name: "Modelica", patterns: &["*.mo"] },
        Named { name: "Monkey", patterns: &["*.monkey", "*.monkey2"] },
        Named { name: "Monkey C", patterns: &["*.mc"] },
        Named { name: "Moocode", patterns: &["*.moo"] },
        Named { name: "MoonBit", patterns: &["*.mbt", "moon.mod", "moon.pkg"] },
        Named { name: "Move", patterns: &["*.move"] },
        Named { name: "NWScript", patterns: &["*.nss"] },
        Named { name: "Nearley", patterns: &["*.ne", "*.nearley"] },
        Named { name: "NetLinx", patterns: &["*.axs", "*.axi"] },
        Named { name: "Nextflow", patterns: &["*.nf", "nextflow.config"] },
        Named { name: "Noir", patterns: &["*.nr"] },
        Named { name: "OMNeT++ MSG", patterns: &["*.msg"] },
        Named { name: "OMNeT++ NED", patterns: &["*.ned"] },
        Named { name: "Objective-J", patterns: &["*.j", "*.sj"] },
        Named { name: "OpenCL", patterns: &["*.opencl"] },
        Named { name: "OpenQASM", patterns: &["*.qasm"] },
        Named { name: "OpenSCAD", patterns: &["*.scad"] },
        Named { name: "OverpassQL", patterns: &["*.overpassql"] },
        Named { name: "Ox", patterns: &["*.ox", "*.oxh", "*.oxo"] },
        Named { name: "P4", patterns: &["*.p4"] },
        Named { name: "PEG.js", patterns: &["*.pegjs", "*.peggy"] },
        Named { name: "POV-Ray SDL", patterns: &["*.pov"] },
        Named { name: "Pawn", patterns: &["*.pwn", "*.sma"] },
        Named { name: "Pike", patterns: &["*.pike", "*.pmod"] },
        Named { name: "Pkl", patterns: &["*.pkl"] },
        Named { name: "PogoScript", patterns: &["*.pogo"] },
        Named { name: "PostCSS", patterns: &["*.pcss", "*.postcss"] },
        Named { name: "Power Query", patterns: &["*.pq"] },
        Named { name: "Pro*C", patterns: &["*.pc"] },
        Named { name: "Processing", patterns: &["*.pde"] },
        Named { name: "Promela", patterns: &["*.pml"] },
        Named { name: "QML", patterns: &["*.qml", "*.qbs"] },
        Named { name: "Qt Script", patterns: &["installscript.qs", "toolchain_installscript.qs"] },
        Named { name: "QuakeC", patterns: &["*.qc"] },
        Named { name: "Quint", patterns: &["*.qnt"] },
        Named { name: "RAScript", patterns: &["*.rascript"] },
        Named { name: "Ragel", patterns: &["*.rl"] },
    ]
}

fn slash_languages_second_list() -> (r: Vec<Named>)
    ensures
        r@ == slash_languages_second(),
{
    let r: Vec<Named> = vec![
        Named { name: "ImageJ Macro", patterns: &["*.ijm"] },
        Named { name: "Ink", patterns: &["*.ink"] },
        Named { name: "JFlex", patterns: &["*.flex", "*.jflex"] },
        Named { name: "Jai", patterns: &["*.jai"] },
        Named { name: "Java Template Engine", patterns: &["*.jte"] },
        Named { name: "JavaScript+ERB", patterns: &["*.js.erb"] },
        Named { name: "Jison", patterns: &["*.jison"] },
        Named { name: "Jolie", patterns: &["*.ol", "*.iol"] },
        Named { name: "Jsonnet", patterns: &["*.jsonnet", "*.libsonnet"] },
        Named { name: "KRL", patterns: &["*.krl"] },
        Named { name: "KoLmafia ASH", patterns: &["*.ash"] },
        Named { name: "Koka", patterns: &["*.kk"] },
        Named { name: "LLVM TableGen", patterns: &["*.td"] },
        Named { name: "LSL", patterns: &["*.lsl", "*.lslp"] },
        Named { name: "Langium", patterns: &["*.langium"] },
        Named { name: "Lasso", patterns: &["*.lasso", "*.las", "*.lasso8", "*.lasso9"] },
        Named { name: "Leo", patterns: &["*.leo"] },
        Named { name: "Lex", patterns: &["*.lex", "Lexer.x"] },
        Named { name: "LigoLANG", patterns: &["*.ligo"] },
        Named { name: "Linker Script", patterns: &["*.ld", "*.lds", "ld.script"] },
        Named { name: "Lobster", patterns: &["*.lobster"] },
        Named { name: "Logos", patterns: &["*.xm", "*.xi"] },
        Named { name: "MQL4", patterns: &["*.mq4"] },
        Named { name: "MQL5", patterns: &["*.mq5"] },
        Named { name: "Metal", patterns: &["*.metal"] },
        Named { name: "MiniD", patterns: &["*.minid"] },
        Named { name: "Mint", patterns: &["*.mint"] },
        Named { name: "Modelica", patterns: &["*.mo"] },
        Named { name: "Monkey", patterns: &["*.monkey", "*.monkey2"] },
        Named { name: "Monkey C", patterns: &["*.mc"] },
        Named { name: "Moocode", patterns: &["*.moo"] },
        Named { name: "MoonBit", patterns: &["*.mbt", "moon.mod", "moon.pkg"] },
        Named { name: "Move", patterns: &["*.move"] },
        Named { name: "NWScript", patterns: &["*.nss"] },
        Named { name: "Nearley", patterns: &["*.ne", "*.nearley"] },
        Named { name: "NetLinx", patterns: &["*.axs", "*.axi"] },
        Named { name: "Nextflow", patterns: &["*.nf", "nextflow.config"] },
        Named { name: "Noir", patterns: &["*.nr"] },
        Named { name: "OMNeT++ MSG", patterns: &["*.msg"] },
        Named { name: "OMNeT++ NED", patterns: &["*.ned"] },
        Named { name: "Objective-J", patterns: &["*.j", "*.sj"] },
        Named { name: "OpenCL", patterns: &["*.opencl"] },
        Named { name: "OpenQASM", patterns: &["*.qasm"] },
        Named { name: "OpenSCAD", patterns: &["*.scad"] },
        Named { name: "OverpassQL", patterns: &["*.overpassql"] },
        Named { name: "Ox", patterns: &["*.ox", "*.oxh", "*.oxo"] },
        Named { name: "P4", patterns: &["*.p4"] },
        Named { name: "PEG.js", patterns: &["*.pegjs", "*.peggy"] },
        Named { name: "POV-Ray SDL", patterns: &["*.pov"] },
        Named { name: "Pawn", patterns: &["*.pwn", "*.sma"] },
        Named { name: "Pike", patterns: &["*.pike", "*.pmod"] },
        Named { name: "Pkl", patterns: &["*.pkl"] },
        Named { name: "PogoScript", patterns: &["*.pogo"] },
        Named { name: "PostCSS", patterns: &["*.pcss", "*.postcss"] },
        Named { name: "Power Query", patterns: &["*.pq"] },
        Named { name: "Pro*C", patterns: &["*.pc"] },
        Named { name: "Processing", patterns: &["*.pde"] },
        Named { name: "Promela", patterns: &["*.pml"] },
        Named { name: "QML", patterns: &["*.qml", "*.qbs"] },
        Named { name: "Qt Script", patterns: &["installscript.qs", "toolchain_installscript.qs"] },
        Named { name: "QuakeC", patterns: &["*.qc"] },
        Named { name: "Quint", patterns: &["*.qnt"] },
        Named { name: "RAScript", patterns: &["*.rascript"] },
        Named { name: "Ragel", patterns: &["*.rl"] },
    ];
    proof {
        reveal(slash_languages_second);
        assert(r@ =~= slash_languages_second());
    }
    r
}

/// Languages whose comments are written with `//` and `/* */`.
#[verifier::opaque]
pub open spec fn slash_languages_third() -> Seq<Named> {
    seq![
        Named { name: "ReScript", patterns: &["*.res", "*.resi"] },
        Named { name: "Reason", patterns: &["*.re", "*.rei"] },
        Named { name: "ReasonLIGO", patterns: &["*.religo"] },
        Named { name: "Redscript", patterns: &["*.reds"] },
        Named { name: "RenderScript", patterns: &["*.rsh"] },
        Named { name: "Rhai", patterns: &["*.rhai"] },
        Named { name: "SIP", patterns: &["*.sip"] },
        Named { name: "SQF", patterns: &["*.sqf", "*.hqf"] },
        Named { name: "SWIG", patterns: &["*.swg", "*.swig"] },
        Named { name: "Sail", patterns: &["*.sail"] },
        Named { name: "Scilab", patterns: &["*.sci", "*.sce"] },
        Named { name: "ShaderLab", patterns: &["*.shader"] },
        Named { name: "Slang", patterns: &["*.slang"] },
        Named { name: "Slice", patterns: &["*.ice"] },
        Named { name: "Slint", patterns: &["*.slint"] },
        Named { name: "SmPL", patterns: &["*.cocci"] },
        Named { name: "Smithy", patterns: &["*.smithy"] },
        Named { name: "SourcePawn", patterns: &["*.sp"] },
        Named { name: "Squirrel", patterns: &["*.nut"] },
        Named { name: "Stan", patterns: &["*.stan"] },
        Named { name: "Stylus", patterns: &["*.styl"] },
        Named { name: "SugarSS", patterns: &["*.sss"] },
        Named { name: "Sway", patterns: &["*.sw"] },
        Named { name: "SystemVerilog", patterns: &["*.sv", "*.svh", "*.vh"] },
        Named { name: "TL-Verilog", patterns: &["*.tlv"] },
        Named { name: "Tact", patterns: &["*.tact"] },
        Named { name: "Tolk", patterns: &["*.tolk"] },
        Named { name: "TypeSpec", patterns: &["*.tsp"] },
        Named { name: "Typst", patterns: &["*.typ"] },
        Named { name: "Unified Parallel C", patterns: &["*.upc"] },
        Named { name: "Uno", patterns: &["*.uno"] },
        Named { name: "UnrealScript", patterns: &["*.uc"] },
        Named { name: "VCL", patterns: &["*.vcl"] },
        Named { name: "Vala", patterns: &["*.vala", "*.vapi"] },
        Named { name: "Verilog", patterns: &["*.v", "*.veo"] },
        Named { name: "Volt", patterns: &["*.volt"] },
        Named { name: "WebIDL", patterns: &["*.webidl"] },
        Named { name: "Whiley", patterns: &["*.whiley"] },
        Named { name: "Witcher Script", patterns: &["*.ws"] },
        Named { name: "Wollok", patterns: &["*.wlk"] },
        Named { name: "Wren", patterns: &["*.wren"] },
        Named { name: "X10", patterns: &["*.x10"] },
        Named { name: "XC", patterns: &["*.xc"] },
        Named { name: "XS", patterns: &["*.xs"] },
        Named { name: "Xtend", patterns: &["*.xtend"] },
        Named { name: "YARA", patterns: &["*.yar", "*.yara"] },
        Named { name: "Yacc", patterns: &["*.y", "*.yacc", "*.yy"] },
        Named { name: "Yul", patterns: &["*.yul"] },
        Named { name: "ZenScript", patterns: &["*.zs"] },
        Named { name: "Zephir", patterns: &["*.zep"] },
        Named { name: "eC", patterns: &["*.ec", "*.eh"] },
        Named { name: "nesC", patterns: &["*.nc"] },
        Named { name: "ooc", patterns: &["*.ooc"] },
        Named { name: "templ", patterns: &["*.templ"] },
    ]
}

fn slash_languages_third_list() -> (r: Vec<Named>)
    ensures
        r@ == slash_languages_third(),
{
    let r: Vec<Named> = vec![
        Named { name: "ReScript", patterns: &["*.res", "*.resi"] },
        Named { name: "Reason", patterns: &["*.re", "*.rei"] },
        Named { name: "ReasonLIGO", patterns: &["*.religo"] },
        Named { name: "Redscript", patterns: &["*.reds"] },
        Named { name: "RenderScript", patterns: &["*.rsh"] },
        Named { name: "Rhai", patterns: &["*.rhai"] },
        Named { name: "SIP", patterns: &["*.sip"] },
        Named { name: "SQF", patterns: &["*.sqf", "*.hqf"] },
        Named { name: "SWIG", patterns: &["*.swg", "*.swig"] },
        Named { name: "Sail", patterns: &["*.sail"] },
        Named { name: "Scilab", patterns: &["*.sci", "*.sce"] },
        Named { name: "ShaderLab", patterns: &["*.shader"] },
        Named { name: "Slang", patterns: &["*.slang"] },
        Named { name: "Slice", patterns: &["*.ice"] },
        Named { name: "Slint", patterns: &["*.slint"] },
        Named { name: "SmPL", patterns: &["*.cocci"] },
        Named { name: "Smithy", patterns: &["*.smithy"] },
        Named { name: "SourcePawn", patterns: &["*.sp"] },
        Named { name: "Squirrel", patterns: &["*.nut"] },
        Named { name: "Stan", patterns: &["*.stan"] },
        Named { name: "Stylus", patterns: &["*.styl"] },
        Named { name: "SugarSS", patterns: &["*.sss"] },
        Named { name: "Sway", patterns: &["*.sw"] },
        Named { name: "SystemVerilog", patterns: &["*.sv", "*.svh", "*.vh"] },
        Named { name: "TL-Verilog", patterns: &["*.tlv"] },
        Named { name: "Tact", patterns: &["*.tact"] },
        Named { name: "Tolk", patterns: &["*.tolk"] },
        Named { name: "TypeSpec", patterns: &["*.tsp"] },
        Named { name: "Typst", patterns: &["*.typ"] },
        Named { name: "Unified Parallel C", patterns: &["*.upc"] },
        Named { name: "Uno", patterns: &["*.uno"] },
        Named { name: "UnrealScript", patterns: &["*.uc"] },
        Named { name: "VCL", patterns: &["*.vcl"] },
        Named { name: "Vala", patterns: &["*.vala", "*.vapi"] },
        Named { name: "Verilog", patterns: &["*.v", "*.veo"] },
        Named { name: "Volt", patterns: &["*.volt"] },
        Named { name: "WebIDL", patterns: &["*.webidl"] },
        Named { name: "Whiley", patterns: &["*.whiley"] },
        Named { name: "Witcher Script", patterns: &["*.ws"] },
        Named { name: "Wollok", patterns: &["*.wlk"] },
        Named { name: "Wren", patterns: &["*.wren"] },
        Named { name: "X10", patterns: &["*.x10"] },
        Named { name: "XC", patterns: &["*.xc"] },
        Named { name: "XS", patterns: &["*.xs"] },
        Named { name: "Xtend", patterns: &["*.xtend"] },
        Named { name: "YARA", patterns: &["*.yar", "*.yara"] },
        Named { name: "Yacc", patterns: &["*.y", "*.yacc", "*.yy"] },
        Named { name: "Yul", patterns: &["*.yul"] },
        Named { name: "ZenScript", patterns: &["*.zs"] },
        Named { name: "Zephir", patterns: &["*.zep"] },
        Named { name: "eC", patterns: &["*.ec", "*.eh"] },
        Named { name: "nesC", patterns: &["*.nc"] },
        Named { name: "ooc", patterns: &["*.ooc"] },
        Named { name: "templ", patterns: &["*.templ"] },
    ];
    proof {
        reveal(slash_languages_third);
        assert(r@ =~= slash_languages_third());
    }
    r
}

/// Comments are written with `#`.
pub open spec fn hash_comments() -> Comments {
    Comments { line: &["#"], blocks: &[], nested: false }
}

fn hash_comments_value() -> (r: Comments)
    ensures
        r == hash_comments(),
{
    Comments { line: &["#"], blocks: &[], nested: false }
}

/// Languages whose comments are written with `#`.
#[verifier::opaque]
pub open spec fn hash_languages_first() -> Seq<Named> {
    seq![
        Named { name: "Alpine Abuild", patterns: &["APKBUILD"] },
        Named { name: "Awk", patterns: &["*.awk", "*.auk", "*.gawk", "*.mawk", "*.nawk"] },
        Named { name: "BQN", patterns: &["*.bqn"] },
        Named { name: "Berry", patterns: &["*.be"] },
        Named { name: "BitBake", patterns: &["*.bb", "*.bbappend", "*.bbclass"] },
        Named { name: "Cap'n Proto", patterns: &["*.capnp"] },
        Named { name: "Common Workflow Language", patterns: &["*.cwl"] },
        Named { name: "Crystal", patterns: &["*.cr"] },
        Named { name: "Cython", patterns: &["*.pyx", "*.pxd", "*.pxi"] },
        Named { name: "D2", patterns: &["*.d2"] },
        Named { name: "Earthly", patterns: &["Earthfile"] },
        Named { name: "EdgeQL", patterns: &["*.edgeql", "*.esdl"] },
        Named { name: "Elvish", patterns: &["*.elv"] },
        Named { name: "FIRRTL", patterns: &["*.fir"] },
        Named { name: "Fancy", patterns: &["*.fy", "*.fancypack", "Fakefile"] },
        Named { name: "GAP", patterns: &["*.gap", "*.gi"] },
        Named { name: "GDB", patterns: &["*.gdb", "*.gdbinit"] },
        Named { name: "GDScript", patterns: &["*.gd"] },
        Named { name: "Gentoo Ebuild", patterns: &["*.ebuild"] },
        Named { name: "Gentoo Eclass", patterns: &["*.eclass"] },
        Named { name: "Gherkin", patterns: &["*.feature", "*.story"] },
        Named { name: "Glyph", patterns: &["*.glf"] },
        Named { name: "Gnuplot", patterns: &["*.gp", "*.gnu", "*.gnuplot", "*.plot"] },
        Named { name: "Hurl", patterns: &["*.hurl"] },
        Named { name: "Imba", patterns: &["*.imba"] },
        Named { name: "Janet", patterns: &["*.janet"] },
        Named { name: "Just", patterns: &["*.just", ".JUSTFILE", "JUSTFILE"] },
        Named { name: "Kaitai Struct", patterns: &["*.ksy"] },
        Named { name: "KakouneScript", patterns: &["*.kak", "kakrc"] },
        Named { name: "Liquidsoap", patterns: &["*.liq"] },
        Named { name: "LookML", patterns: &["*.lkml", "*.lookml"] },
        Named { name: "Mako", patterns: &["*.mako", "*.mao"] },
        Named { name: "Meson", patterns: &["meson.build", "meson_options.txt"] },
        Named { name: "Mirah", patterns: &["*.druby", "*.duby", "*.mirah"] },
        Named { name: "Mojo", patterns: &["*.mojo"] },
        Named { name: "NASL", patterns: &["*.nasl"] },
        Named { name: "Nasal", patterns: &["*.nas"] },
        Named { name: "Nit", patterns: &["*.nit"] },
        Named { name: "Nushell", patterns: &["*.nu"] },
        Named { name: "Open Policy Agent", patterns: &["*.rego"] },
        Named { name: "Pan", patterns: &["*.pan"] },
        Named { name: "Parrot", patterns: &["*.parrot"] },
        Named { name: "Parrot Assembly", patterns: &["*.pasm"] },
        Named { name: "Parrot Internal Representation", patterns: &["*.pir"] },
        Named { name: "Polar", patterns: &["*.polar"] },
        Named { name: "Procfile", patterns: &["Procfile"] },
        Named { name: "Puppet", patterns: &["*.pp", "Modulefile"] },
        Named { name: "QMake", patterns: &["*.pri"] },
        Named { name: "RAML", patterns: &["*.raml"] },
        Named { name: "Raku", patterns: &["*.6pl", "*.6pm", "*.nqp", "*.p6", "*.p6l", "*.p6m", "*.pl6", "*.pm6", "*.raku", "*.rakumod"] },
        Named { name: "Ren'Py", patterns: &["*.rpy"] },
        Named { name: "RobotFramework", patterns: &["*.robot", "*.resource"] },
        Named { name: "Roc", patterns: &["*.roc"] },
        Named { name: "Sage", patterns: &["*.sage", "*.sagews"] },
        Named { name: "Salt", patterns: &["*.sls"] },
        Named { name: "Singularity", patterns: &["Singularity"] },
        Named { name: "Smali", patterns: &["*.smali"] },
        Named { name: "Snakemake", patterns: &["*.smk", "*.snakefile", "Snakefile"] },
        Named { name: "Starlark", patterns: &["*.bzl", "*.star", "BUCK", "BUILD", "BUILD.bazel", "MODULE.bazel", "Tiltfile", "WORKSPACE", "WORKSPACE.bazel", "WORKSPACE.bzlmod"] },
        Named { name: "Talon", patterns: &["*.talon"] },
        Named { name: "Tcl", patterns: &["*.tcl", "*.adp", "*.sdc", "*.tcl.in", "*.tm", "*.xdc", "owh", "starfield"] },
        Named { name: "Tcsh", patterns: &["*.tcsh", "*.csh"] },
        Named { name: "Vim Snippet", patterns: &["*.snip", "*.snippet", "*.snippets"] },
        Named { name: "Vyper", patterns: &["*.vy"] },
    ]
}

fn hash_languages_first_list() -> (r: Vec<Named>)
    ensures
        r@ == hash_languages_first(),
{
    let r: Vec<Named> = vec![
        Named { name: "Alpine Abuild", patterns: &["APKBUILD"] },
        Named { name: "Awk", patterns: &["*.awk", "*.auk", "*.gawk", "*.mawk", "*.nawk"] },
        Named { name: "BQN", patterns: &["*.bqn"] },
        Named { name: "Berry", patterns: &["*.be"] },
        Named { name: "BitBake", patterns: &["*.bb", "*.bbappend", "*.bbclass"] },
        Named { name: "Cap'n Proto", patterns: &["*.capnp"] },
        Named { name: "Common Workflow Language", patterns: &["*.cwl"] },
        Named { name: "Crystal", patterns: &["*.cr"] },
        Named { name: "Cython", patterns: &["*.pyx", "*.pxd", "*.pxi"] },
        Named { name: "D2", patterns: &["*.d2"] },
        Named { name: "Earthly", patterns: &["Earthfile"] },
        Named { name: "EdgeQL", patterns: &["*.edgeql", "*.esdl"] },
        Named { name: "Elvish", patterns: &["*.elv"] },
        Named { name: "FIRRTL", patterns: &["*.fir"] },
        Named { name: "Fancy", patterns: &["*.fy", "*.fancypack", "Fakefile"] },
        Named { name: "GAP", patterns: &["*.gap", "*.gi"] },
        Named { name: "GDB", patterns: &["*.gdb", "*.gdbinit"] },
        Named { name: "GDScript", patterns: &["*.gd"] },
        Named { name: "Gentoo Ebuild", patterns: &["*.ebuild"] },
        Named { name: "Gentoo Eclass", patterns: &["*.eclass"] },
        Named { name: "Gherkin", patterns: &["*.feature", "*.story"] },
        Named { name: "Glyph", patterns: &["*.glf"] },
        Named { name: "Gnuplot", patterns: &["*.gp", "*.gnu", "*.gnuplot", "*.plot"] },
        Named { name: "Hurl", patterns: &["*.hurl"] },
        Named { name: "Imba", patterns: &["*.imba"] },
        Named { name: "Janet", patterns: &["*.janet"] },
        Named { name: "Just", patterns: &["*.just", ".JUSTFILE", "JUSTFILE"] },
        Named { name: "Kaitai Struct", patterns: &["*.ksy"] },
        Named { name: "KakouneScript", patterns: &["*.kak", "kakrc"] },
        Named { name: "Liquidsoap", patterns: &["*.liq"] },
        Named { name: "LookML", patterns: &["*.lkml", "*.lookml"] },
        Named { name: "Mako", patterns: &["*.mako", "*.mao"] },
        Named { name: "Meson", patterns: &["meson.build", "meson_options.txt"] },
        Named { name: "Mirah", patterns: &["*.druby", "*.duby", "*.mirah"] },
        Named { name: "Mojo", patterns: &["*.mojo"] },
        Named { name: "NASL", patterns: &["*.nasl"] },
        Named { name: "Nasal", patterns: &["*.nas"] },
        Named { name: "Nit", patterns: &["*.nit"] },
        Named { name: "Nushell", patterns: &["*.nu"] },
        Named { name: "Open Policy Agent", patterns: &["*.rego"] },
        Named { name: "Pan", patterns: &["*.pan"] },
        Named { name: "Parrot", patterns: &["*.parrot"] },
        Named { name: "Parrot Assembly", patterns: &["*.pasm"] },
        Named { name: "Parrot Internal Representation", patterns: &["*.pir"] },
        Named { name: "Polar", patterns: &["*.polar"] },
        Named { name: "Procfile", patterns: &["Procfile"] },
        Named { name: "Puppet", patterns: &["*.pp", "Modulefile"] },
        Named { name: "QMake", patterns: &["*.pri"] },
        Named { name: "RAML", patterns: &["*.raml"] },
        Named { name: "Raku", patterns: &["*.6pl", "*.6pm", "*.nqp", "*.p6", "*.p6l", "*.p6m", "*.pl6", "*.pm6", "*.raku", "*.rakumod"] },
        Named { name: "Ren'Py", patterns: &["*.rpy"] },
        Named { name: "RobotFramework", patterns: &["*.robot", "*.resource"] },
        Named { name: "Roc", patterns: &["*.roc"] },
        Named { name: "Sage", patterns: &["*.sage", "*.sagews"] },
        Named { name: "Salt", patterns: &["*.sls"] },
        Named { name: "Singularity", patterns: &["Singularity"] },
        Named { name: "Smali", patterns: &["*.smali"] },
        Named { name: "Snakemake", patterns: &["*.smk", "*.snakefile", "Snakefile"] },
        Named { name: "Starlark", patterns: &["*.bzl", "*.star", "BUCK", "BUILD", "BUILD.bazel", "MODULE.bazel", "Tiltfile", "WORKSPACE", "WORKSPACE.bazel", "WORKSPACE.bzlmod"] },
        Named { name: "Talon", patterns: &["*.talon"] },
        Named { name: "Tcl", patterns: &["*.tcl", "*.adp", "*.sdc", "*.tcl.in", "*.tm", "*.xdc", "owh", "starfield"] },
        Named { name: "Tcsh", patterns: &["*.tcsh", "*.csh"] },
        Named { name: "Vim Snippet", patterns: &["*.snip", "*.snippet", "*.snippets"] },
        Named { name: "Vyper", patterns: &["*.vy"] },
    ];
    proof {
        reveal(hash_languages_first);
        assert(r@ =~= hash_languages_first());
    }
    r
}

/// Languages whose comments are written with `#`.
#[verifier::opaque]
pub open spec fn hash_languages_second() -> Seq<Named> {
    seq![
        Named { name: "WDL", patterns: &["*.wdl"] },
        Named { name: "Xonsh", patterns: &["*.xsh"] },
        Named { name: "Zeek", patterns: &["*.zeek", "*.bro"] },
        Named { name: "Zimpl", patterns: &["*.zimpl", "*.zmpl", "*.zpl"] },
        Named { name: "fish", patterns: &["*.fish"] },
        Named { name: "kvlang", patterns: &["*.kv"] },
        Named { name: "mcfunction", patterns: &["*.mcfunction"] },
        Named { name: "sed", patterns: &["*.sed"] },
    ]
}

fn hash_languages_second_list() -> (r: Vec<Named>)
    ensures
        r@ == hash_languages_second(),
{
    let r: Vec<Named> = vec![
        Named { name: "WDL", patterns: &["*.wdl"] },
        Named { name: "Xonsh", patterns: &["*.xsh"] },
        Named { name: "Zeek", patterns: &["*.zeek", "*.bro"] },
        Named { name: "Zimpl", patterns: &["*.zimpl", "*.zmpl", "*.zpl"] },
        Named { name: "fish", patterns: &["*.fish"] },
        Named { name: "kvlang", patterns: &["*.kv"] },
        Named { name: "mcfunction", patterns: &["*.mcfunction"] },
        Named { name: "sed", patterns: &["*.sed"] },
    ];
    proof {
        reveal(hash_languages_second);
        assert(r@ =~= hash_languages_second());
    }
    r
}

/// Comments are written with `;`.
pub open spec fn semicolon_comments() -> Comments {
    Comments { line: &[";"], blocks: &[], nested: false }
}

fn semicolon_comments_value() -> (r: Comments)
    ensures
        r == semicolon_comments(),
{
    Comments { line: &[";"], blocks: &[], nested: false }
}

/// Languages whose comments are written with `;`.
#[verifier::opaque]
pub open spec fn semicolon_languages() -> Seq<Named> {
    seq![
        Named { name: "Apollo Guidance Computer", patterns: &["*.agc"] },
        Named { name: "Arc", patterns: &["*.arc"] },
        Named { name: "Assembly", patterns: &["*.asm", "*.a51", "*.i", "*.nasm"] },
        Named { name: "BlitzBasic", patterns: &["*.decls"] },
        Named { name: "CLIPS", patterns: &["*.clp"] },
        Named { name: "Clarity", patterns: &["*.clar"] },
        Named { name: "Dune", patterns: &["dune-project"] },
        Named { name: "Emacs Lisp", patterns: &["*.el", "*.emacs", "*.emacs.desktop", ".abbrev_defs", ".emacs", ".emacs.desktop", ".gnus", ".spacemacs", ".viper", "Cask", "Eask", "Project.ede"] },
        Named { name: "Fennel", patterns: &["*.fnl"] },
        Named { name: "Hy", patterns: &["*.hy"] },
        Named { name: "IDL", patterns: &["*.dlm"] },
        Named { name: "Ioke", patterns: &["*.ik"] },
        Named { name: "LFE", patterns: &["*.lfe"] },
        Named { name: "LLVM", patterns: &["*.ll"] },
        Named { name: "M", patterns: &["*.mumps"] },
        Named { name: "MeTTa", patterns: &["*.metta"] },
        Named { name: "Motorola 68K Assembly", patterns: &["*.x68"] },
        Named { name: "NCL", patterns: &["*.ncl"] },
        Named { name: "NetLogo", patterns: &["*.nlogo"] },
        Named { name: "NewLisp", patterns: &["*.nl"] },
        Named { name: "Nu", patterns: &["Nukefile"] },
        Named { name: "PDDL", patterns: &["*.pddl"] },
        Named { name: "Pact", patterns: &["*.pact"] },
        Named { name: "PureBasic", patterns: &["*.pb", "*.pbi"] },
        Named { name: "Rebol", patterns: &["*.reb", "*.r2", "*.r3", "*.rebol"] },
        Named { name: "Red", patterns: &["*.red"] },
        Named { name: "Redcode", patterns: &["*.cw"] },
        Named { name: "SMT", patterns: &["*.smt2", "*.smt", "*.z3"] },
        Named { name: "ZAP", patterns: &["*.zap", "*.xzap"] },
        Named { name: "ZIL", patterns: &["*.zil", "*.mud"] },
        Named { name: "mIRC Script", patterns: &["*.mrc"] },
        Named { name: "wisp", patterns: &["*.wisp"] },
    ]
}

fn semicolon_languages_list() -> (r: Vec<Named>)
    ensures
        r@ == semicolon_languages(),
{
    let r: Vec<Named> = vec![
        Named { name: "Apollo Guidance Computer", patterns: &["*.agc"] },
        Named { name: "Arc", patterns: &["*.arc"] },
        Named { name: "Assembly", patterns: &["*.asm", "*.a51", "*.i", "*.nasm"] },
        Named { name: "BlitzBasic", patterns: &["*.decls"] },
        Named { name: "CLIPS", patterns: &["*.clp"] },
        Named { name: "Clarity", patterns: &["*.clar"] },
        Named { name: "Dune", patterns: &["dune-project"] },
        Named { name: "Emacs Lisp", patterns: &["*.el", "*.emacs", "*.emacs.desktop", ".abbrev_defs", ".emacs", ".emacs.desktop", ".gnus", ".spacemacs", ".viper", "Cask", "Eask", "Project.ede"] },
        Named { name: "Fennel", patterns: &["*.fnl"] },
        Named { name: "Hy", patterns: &["*.hy"] },
        Named { name: "IDL", patterns: &["*.dlm"] },
        Named { name: "Ioke", patterns: &["*.ik"] },
        Named { name: "LFE", patterns: &["*.lfe"] },
        Named { name: "LLVM", patterns: &["*.ll"] },
        Named { name: "M", patterns: &["*.mumps"] },
        Named { name: "MeTTa", patterns: &["*.metta"] },
        Named { name: "Motorola 68K Assembly", patterns: &["*.x68"] },
        Named { name: "NCL", patterns: &["*.ncl"] },
        Named { name: "NetLogo", patterns: &["*.nlogo"] },
        Named { name: "NewLisp", patterns: &["*.nl"] },
        Named { name: "Nu", patterns: &["Nukefile"] },
        Named { name: "PDDL", patterns: &["*.pddl"] },
        Named { name: "Pact", patterns: &["*.pact"] },
        Named { name: "PureBasic", patterns: &["*.pb", "*.pbi"] },
        Named { name: "Rebol", patterns: &["*.reb", "*.r2", "*.r3", "*.rebol"] },
        Named { name: "Red", patterns: &["*.red"] },
        Named { name: "Redcode", patterns: &["*.cw"] },
        Named { name: "SMT", patterns: &["*.smt2", "*.smt", "*.z3"] },
        Named { name: "ZAP", patterns: &["*.zap", "*.xzap"] },
        Named { name: "ZIL", patterns: &["*.zil", "*.mud"] },
        Named { name: "mIRC Script", patterns: &["*.mrc"] },
        Named { name: "wisp", patterns: &["*.wisp"] },
    ];
    proof {
        reveal(semicolon_languages);
        assert(r@ =~= semicolon_languages());
    }
    r
}

/// Comments are written with `<!-- -->`.
pub open spec fn markup_comments() -> Comments {
    Comments { line: &[], blocks: &[("<!--", "-->")], nested: false }
}

fn markup_comments_value() -> (r: Comments)
    ensures
        r == markup_comments(),
{
    Comments { line: &[], blocks: &[("<!--", "-->")], nested: false }
}

/// Languages whose comments are written with `<!-- -->`.
#[verifier::opaque]
pub open spec fn markup_languages() -> Seq<Named> {
    seq![
        Named { name: "Astro", patterns: &["*.astro"] },
        Named { name: "Classic ASP", patterns: &["*.asp"] },
        Named { name: "EJS", patterns: &["*.ejs", "*.ect", "*.ejs.t", "*.jst"] },
        Named { name: "Genshi", patterns: &["*.kid"] },
        Named { name: "HTML+ECR", patterns: &["*.ecr"] },
        Named { name: "HTML+EEX", patterns: &["*.html.eex", "*.heex", "*.leex"] },
        Named { name: "HTML+PHP", patterns: &["*.phtml"] },
        Named { name: "JetBrains MPS", patterns: &["*.mps", "*.mpl", "*.msd"] },
        Named { name: "MDX", patterns: &["*.mdx"] },
        Named { name: "MTML", patterns: &["*.mtml"] },
        Named { name: "Marko", patterns: &["*.marko"] },
        Named { name: "Riot", patterns: &["*.riot"] },
        Named { name: "XProc", patterns: &["*.xpl", "*.xproc"] },
        Named { name: "XSLT", patterns: &["*.xslt"] },
        Named { name: "mdsvex", patterns: &["*.svx"] },
    ]
}

fn markup_languages_list() -> (r: Vec<Named>)
    ensures
        r@ == markup_languages(),
{
    let r: Vec<Named> = vec![
        Named { name: "Astro", patterns: &["*.astro"] },
        Named { name: "Classic ASP", patterns: &["*.asp"] },
        Named { name: "EJS", patterns: &["*.ejs", "*.ect", "*.ejs.t", "*.jst"] },
        Named { name: "Genshi", patterns: &["*.kid"] },
        Named { name: "HTML+ECR", patterns: &["*.ecr"] },
        Named { name: "HTML+EEX", patterns: &["*.html.eex", "*.heex", "*.leex"] },
        Named { name: "HTML+PHP", patterns: &["*.phtml"] },
        Named { name: "JetBrains MPS", patterns: &["*.mps", "*.mpl", "*.msd"] },
        Named { name: "MDX", patterns: &["*.mdx"] },
        Named { name: "MTML", patterns: &["*.mtml"] },
        Named { name: "Marko", patterns: &["*.marko"] },
        Named { name: "Riot", patterns: &["*.riot"] },
        Named { name: "XProc", patterns: &["*.xpl", "*.xproc"] },
        Named { name: "XSLT", patterns: &["*.xslt"] },
        Named { name: "mdsvex", patterns: &["*.svx"] },
    ];
    proof {
        reveal(markup_languages);
        assert(r@ =~= markup_languages());
    }
    r
}

/// Comments are written with `//` and nested `/* */`.
pub open spec fn nested_comments() -> Comments {
    Comments { line: &["//"], blocks: &[("/*", "*/")], nested: true }
}

fn nested_comments_value() -> (r: Comments)
    ensures
        r == nested_comments(),
{
    Comments { line: &["//"], blocks: &[("/*", "*/")], nested: true }
}

/// Languages whose comments are written with `//` and nested `/* */`.
#[verifier::opaque]
pub open spec fn nested_languages() -> Seq<Named> {
    seq![
        Named { name: "Chapel", patterns: &["*.chpl"] },
        Named { name: "Clean", patterns: &["*.icl", "*.dcl"] },
        Named { name: "Dylan", patterns: &["*.dylan", "*.dyl", "*.intr", "*.lid"] },
        Named { name: "Flix", patterns: &["*.flix"] },
        Named { name: "Odin", patterns: &["*.odin"] },
        Named { name: "OpenEdge ABL", patterns: &["*.p", "*.w"] },
        Named { name: "Pony", patterns: &["*.pony"] },
        Named { name: "PowerBuilder", patterns: &["*.pbt", "*.sra", "*.sru", "*.srw"] },
        Named { name: "SuperCollider", patterns: &["*.scd"] },
        Named { name: "Toit", patterns: &["*.toit"] },
        Named { name: "WGSL", patterns: &["*.wgsl"] },
    ]
}

fn nested_languages_list() -> (r: Vec<Named>)
    ensures
        r@ == nested_languages(),
{
    let r: Vec<Named> = vec![
        Named { name: "Chapel", patterns: &["*.chpl"] },
        Named { name: "Clean", patterns: &["*.icl", "*.dcl"] },
        Named { name: "Dylan", patterns: &["*.dylan", "*.dyl", "*.intr", "*.lid"] },
        Named { name: "Flix", patterns: &["*.flix"] },
        Named { name: "Odin", patterns: &["*.odin"] },
        Named { name: "OpenEdge ABL", patterns: &["*.p", "*.w"] },
        Named { name: "Pony", patterns: &["*.pony"] },
        Named { name: "PowerBuilder", patterns: &["*.pbt", "*.sra", "*.sru", "*.srw"] },
        Named { name: "SuperCollider", patterns: &["*.scd"] },
        Named { name: "Toit", patterns: &["*.toit"] },
        Named { name: "WGSL", patterns: &["*.wgsl"] },
    ];
    proof {
        reveal(nested_languages);
        assert(r@ =~= nested_languages());
    }
    r
}

/// Comments are written with `nested `(* *)`.
pub open spec fn star_comments() -> Comments {
    Comments { line: &[], blocks: &[("(*", "*)")], nested: true }
}

fn star_comments_value() -> (r: Comments)
    ensures
        r == star_comments(),
{
    Comments { line: &[], blocks: &[("(*", "*)")], nested: true }
}

/// Languages whose comments are written with `nested `(* *)`.
#[verifier::opaque]
pub open spec fn star_languages() -> Seq<Named> {
    seq![
        Named { name: "Augeas", patterns: &["*.aug"] },
        Named { name: "Component Pascal", patterns: &["*.cp", "*.cps"] },
        Named { name: "Isabelle", patterns: &["*.thy"] },
        Named { name: "Modula-2", patterns: &["*.mod"] },
        Named { name: "Modula-3", patterns: &["*.i3", "*.ig", "*.m3", "*.mg"] },
        Named { name: "Oberon", patterns: &["*.ob2"] },
        Named { name: "Rocq Prover", patterns: &["*.coq"] },
        Named { name: "Standard ML", patterns: &["*.fun", "*.sig", "*.sml"] },
        Named { name: "UrWeb", patterns: &["*.ur", "*.urs"] },
        Named { name: "Wolfram Language", patterns: &["*.mathematica", "*.cdf", "*.ma", "*.mt", "*.nb", "*.nbp", "*.wl", "*.wls", "*.wlt"] },
    ]
}

fn star_languages_list() -> (r: Vec<Named>)
    ensures
        r@ == star_languages(),
{
    let r: Vec<Named> = vec![
        Named { name: "Augeas", patterns: &["*.aug"] },
        Named { name: "Component Pascal", patterns: &["*.cp", "*.cps"] },
        Named { name: "Isabelle", patterns: &["*.thy"] },
        Named { name: "Modula-2", patterns: &["*.mod"] },
        Named { name: "Modula-3", patterns: &["*.i3", "*.ig", "*.m3", "*.mg"] },
        Named { name: "Oberon", patterns: &["*.ob2"] },
        Named { name: "Rocq Prover", patterns: &["*.coq"] },
        Named { name: "Standard ML", patterns: &["*.fun", "*.sig", "*.sml"] },
        Named { name: "UrWeb", patterns: &["*.ur", "*.urs"] },
        Named { name: "Wolfram Language", patterns: &["*.mathematica", "*.cdf", "*.ma", "*.mt", "*.nb", "*.nbp", "*.wl", "*.wls", "*.wlt"] },
    ];
    proof {
        reveal(star_languages);
        assert(r@ =~= star_languages());
    }
    r
}

/// Comments are written with `//`.
pub open spec fn line_comments() -> Comments {
    Comments { line: &["//"], blocks: &[], nested: false }
}

fn line_comments_value() -> (r: Comments)
    ensures
        r == line_comments(),
{
    Comments { line: &["//"], blocks: &[], nested: false }
}

/// Languages whose comments are written with `//`.
#[verifier::opaque]
pub open spec fn line_languages() -> Seq<Named> {
    seq![
        Named { name: "1C Enterprise", patterns: &["*.bsl", "*.os"] },
        Named { name: "Aiken", patterns: &["*.ak"] },
        Named { name: "Gleam", patterns: &["*.gleam"] },
        Named { name: "Grace", patterns: &["*.grace"] },
        Named { name: "Hare", patterns: &["*.ha"] },
        Named { name: "IGOR Pro", patterns: &["*.ipf"] },
        Named { name: "KerboScript", patterns: &["*.ks"] },
        Named { name: "MLIR", patterns: &["*.mlir"] },
        Named { name: "Pug", patterns: &["*.jade", "*.pug"] },
    ]
}

fn line_languages_list() -> (r: Vec<Named>)
    ensures
        r@ == line_languages(),
{
    let r: Vec<Named> = vec![
        Named { name: "1C Enterprise", patterns: &["*.bsl", "*.os"] },
        Named { name: "Aiken", patterns: &["*.ak"] },
        Named { name: "Gleam", patterns: &["*.gleam"] },
        Named { name: "Grace", patterns: &["*.grace"] },
        Named { name: "Hare", patterns: &["*.ha"] },
        Named { name: "IGOR Pro", patterns: &["*.ipf"] },
        Named { name: "KerboScript", patterns: &["*.ks"] },
        Named { name: "MLIR", patterns: &["*.mlir"] },
        Named { name: "Pug", patterns: &["*.jade", "*.pug"] },
    ];
    proof {
        reveal(line_languages);
        assert(r@ =~= line_languages());
    }
    r
}

/// Comments are written with `--` and nested `{- -}`.
pub open spec fn dash_comments() -> Comments {
    Comments { line: &["--"], blocks: &[("{-", "-}")], nested: true }
}

fn dash_comments_value() -> (r: Comments)
    ensures
        r == dash_comments(),
{
    Comments { line: &["--"], blocks: &[("{-", "-}")], nested: true }
}

/// Languages whose comments are written with `--` and nested `{- -}`.
#[verifier::opaque]
pub open spec fn dash_languages() -> Seq<Named> {
    seq![
        Named { name: "Agda", patterns: &["*.agda"] },
        Named { name: "C2hs Haskell", patterns: &["*.chs"] },
        Named { name: "Curry", patterns: &["*.curry"] },
        Named { name: "Dhall", patterns: &["*.dhall"] },
        Named { name: "Frege", patterns: &["*.fr"] },
        Named { name: "Grammatical Framework", patterns: &["*.gf"] },
        Named { name: "Idris", patterns: &["*.idr", "*.lidr"] },
        Named { name: "Literate Haskell", patterns: &["*.lhs"] },
        Named { name: "PureScript", patterns: &["*.purs"] },
    ]
}

fn dash_languages_list() -> (r: Vec<Named>)
    ensures
        r@ == dash_languages(),
{
    let r: Vec<Named> = vec![
        Named { name: "Agda", patterns: &["*.agda"] },
        Named { name: "C2hs Haskell", patterns: &["*.chs"] },
        Named { name: "Curry", patterns: &["*.curry"] },
        Named { name: "Dhall", patterns: &["*.dhall"] },
        Named { name: "Frege", patterns: &["*.fr"] },
        Named { name: "Grammatical Framework", patterns: &["*.gf"] },
        Named { name: "Idris", patterns: &["*.idr", "*.lidr"] },
        Named { name: "Literate Haskell", patterns: &["*.lhs"] },
        Named { name: "PureScript", patterns: &["*.purs"] },
    ];
    proof {
        reveal(dash_languages);
        assert(r@ =~= dash_languages());
    }
    r
}

/// Comments are written with `#`, `//` and `/* */`.
pub open spec fn mixed_comments() -> Comments {
    Comments { line: &["#", "//"], blocks: &[("/*", "*/")], nested: false }
}

fn mixed_comments_value() -> (r: Comments)
    ensures
        r == mixed_comments(),
{
    Comments { line: &["#", "//"], blocks: &[("/*", "*/")], nested: false }
}

/// Languages whose comments are written with `#`, `//` and `/* */`.
#[verifier::opaque]
pub open spec fn mixed_languages() -> Seq<Named> {
    seq![
        Named { name: "Boo", patterns: &["*.boo"] },
        Named { name: "HCL", patterns: &["*.hcl", "*.nomad", "*.tofu", "*.workflow"] },
        Named { name: "Io", patterns: &["*.io"] },
        Named { name: "Ring", patterns: &["*.ring"] },
        Named { name: "Slash", patterns: &["*.sl"] },
        Named { name: "Terraform Template", patterns: &["*.tftpl"] },
        Named { name: "Thrift", patterns: &["*.thrift"] },
    ]
}

fn mixed_languages_list() -> (r: Vec<Named>)
    ensures
        r@ == mixed_languages(),
{
    let r: Vec<Named> = vec![
        Named { name: "Boo", patterns: &["*.boo"] },
        Named { name: "HCL", patterns: &["*.hcl", "*.nomad", "*.tofu", "*.workflow"] },
        Named { name: "Io", patterns: &["*.io"] },
        Named { name: "Ring", patterns: &["*.ring"] },
        Named { name: "Slash", patterns: &["*.sl"] },
        Named { name: "Terraform Template", patterns: &["*.tftpl"] },
        Named { name: "Thrift", patterns: &["*.thrift"] },
    ];
    proof {
        reveal(mixed_languages);
        assert(r@ =~= mixed_languages());
    }
    r
}

/// Comments are written with `--` and `/* */`.
pub open spec fn query_comments() -> Comments {
    Comments { line: &["--"], blocks: &[("/*", "*/")], nested: false }
}

fn query_comments_value() -> (r: Comments)
    ensures
        r == query_comments(),
{
    Comments { line: &["--"], blocks: &[("/*", "*/")], nested: false }
}

/// Languages whose comments are written with `--` and `/* */`.
#[verifier::opaque]
pub open spec fn query_languages() -> Seq<Named> {
    seq![
        Named { name: "HiveQL", patterns: &["*.hql"] },
        Named { name: "MAXScript", patterns: &["*.mcr"] },
        Named { name: "PLSQL", patterns: &["*.pls", "*.bdy", "*.ddl", "*.fnc", "*.pck", "*.pkb", "*.pks", "*.plb", "*.plsql", "*.prc", "*.spc", "*.tpb"] },
        Named { name: "PLpgSQL", patterns: &["*.pgsql"] },
        Named { name: "PigLatin", patterns: &["*.pig"] },
        Named { name: "SQLPL", patterns: &["*.db2"] },
        Named { name: "SurrealQL", patterns: &["*.surql"] },
    ]
}

fn query_languages_list() -> (r: Vec<Named>)
    ensures
        r@ == query_languages(),
{
    let r: Vec<Named> = vec![
        Named { name: "HiveQL", patterns: &["*.hql"] },
        Named { name: "MAXScript", patterns: &["*.mcr"] },
        Named { name: "PLSQL", patterns: &["*.pls", "*.bdy", "*.ddl", "*.fnc", "*.pck", "*.pkb", "*.pks", "*.plb", "*.plsql", "*.prc", "*.spc", "*.tpb"] },
        Named { name: "PLpgSQL", patterns: &["*.pgsql"] },
        Named { name: "PigLatin", patterns: &["*.pig"] },
        Named { name: "SQLPL", patterns: &["*.db2"] },
        Named { name: "SurrealQL", patterns: &["*.surql"] },
    ];
    proof {
        reveal(query_languages);
        assert(r@ =~= query_languages());
    }
    r
}

/// Comments are written with `'`.
pub open spec fn quote_comments() -> Comments {
    Comments { line: &["'"], blocks: &[], nested: false }
}

fn quote_comments_value() -> (r: Comments)
    ensures
        r == quote_comments(),
{
    Comments { line: &["'"], blocks: &[], nested: false }
}

/// Languages whose comments are written with `'`.
#[verifier::opaque]
pub open spec fn quote_languages() -> Seq<Named> {
    seq![
        Named { name: "BlitzMax", patterns: &["*.bmx"] },
        Named { name: "Brightscript", patterns: &["*.brs"] },
        Named { name: "Propeller Spin", patterns: &["*.spin"] },
        Named { name: "VBA", patterns: &["*.vba"] },
        Named { name: "VBScript", patterns: &["*.vbs"] },
        Named { name: "Visual Basic .NET", patterns: &["*.vb", "*.vbhtml"] },
        Named { name: "Visual Basic 6.0", patterns: &["*.ctl", "*.dsr", "*.frm"] },
    ]
}

fn quote_languages_list() -> (r: Vec<Named>)
    ensures
        r@ == quote_languages(),
{
    let r: Vec<Named> = vec![
        Named { name: "BlitzMax", patterns: &["*.bmx"] },
        Named { name: "Brightscript", patterns: &["*.brs"] },
        Named { name: "Propeller Spin", patterns: &["*.spin"] },
        Named { name: "VBA", patterns: &["*.vba"] },
        Named { name: "VBScript", patterns: &["*.vbs"] },
        Named { name: "Visual Basic .NET", patterns: &["*.vb", "*.vbhtml"] },
        Named { name: "Visual Basic 6.0", patterns: &["*.ctl", "*.dsr", "*.frm"] },
    ];
    proof {
        reveal(quote_languages);
        assert(r@ =~= quote_languages());
    }
    r
}

/// Comments are written with `%` and `/* */`.
pub open spec fn percent_comments() -> Comments {
    Comments { line: &["%"], blocks: &[("/*", "*/")], nested: false }
}

fn percent_comments_value() -> (r: Comments)
    ensures
        r == percent_comments(),
{
    Comments { line: &["%"], blocks: &[("/*", "*/")], nested: false }
}

/// Languages whose comments are written with `%` and `/* */`.
#[verifier::opaque]
pub open spec fn percent_languages() -> Seq<Named> {
    seq![
        Named { name: "Logtalk", patterns: &["*.lgt", "*.logtalk"] },
        Named { name: "MiniZinc", patterns: &["*.mzn"] },
        Named { name: "Oz", patterns: &["*.oz"] },
        Named { name: "Prolog", patterns: &["*.pro", "*.prolog", "*.yap"] },
        Named { name: "Turing", patterns: &["*.tu"] },
    ]
}

fn percent_languages_list() -> (r: Vec<Named>)
    ensures
        r@ == percent_languages(),
{
    let r: Vec<Named> = vec![
        Named { name: "Logtalk", patterns: &["*.lgt", "*.logtalk"] },
        Named { name: "MiniZinc", patterns: &["*.mzn"] },
        Named { name: "Oz", patterns: &["*.oz"] },
        Named { name: "Prolog", patterns: &["*.pro", "*.prolog", "*.yap"] },
        Named { name: "Turing", patterns: &["*.tu"] },
    ];
    proof {
        reveal(percent_languages);
        assert(r@ =~= percent_languages());
    }
    r
}

fn marked_language(
    name: &'static str,
    patterns: &'static [&'static str],
    c: Comments,
) -> (r: Language)
    ensures
        r == marked(name, patterns, c),
{
    Language {
        name,
        patterns,
        line_comments: c.line,
        block_comments: c.blocks,
        nested_blocks: c.nested,
        keywords: &[],
        shebangs: &[],
    }
}

/// Languages that write their comments each in its own way.
#[verifier::opaque]
pub open spec fn other_languages_first() -> Seq<Language> {
    seq![
        marked("ABAP", &["*.abap"], Comments { line: &["*", "\""], blocks: &[], nested: false }),
        marked("AMPL", &["*.ampl"], Comments { line: &["#"], blocks: &[("/*", "*/")], nested: false }),
        marked("ASP.NET", &["*.asax", "*.ascx", "*.ashx", "*.asmx", "*.aspx", "*.axd"], Comments { line: &[], blocks: &[("<!--", "-->"), ("<%--", "--%>")], nested: false }),
        marked("Ada", &["*.adb", "*.ada", "*.ads"], Comments { line: &["--"], blocks: &[], nested: false }),
        marked("Alloy", &["*.als"], Comments { line: &["--", "//"], blocks: &[("/*", "*/")], nested: false }),
        marked("AppleScript", &["*.applescript", "*.scpt"], Comments { line: &["--", "#"], blocks: &[("(*", "*)")], nested: true }),
        marked("AutoHotkey", &["*.ahk", "*.ah1", "*.ah2", "*.ahkl"], Comments { line: &[";"], blocks: &[("/*", "*/")], nested: false }),
        marked("AutoIt", &["*.au3"], Comments { line: &[";"], blocks: &[("#cs", "#ce")], nested: false }),
        marked("BASIC", &["*.bas"], Comments { line: &["REM", "'"], blocks: &[], nested: false }),
        marked("Blade", &["*.blade", "*.blade.php"], Comments { line: &[], blocks: &[("{{--", "--}}"), ("<!--", "-->")], nested: false }),
        marked("COBOL", &["*.cob", "*.cbl", "*.ccp", "*.cobol", "*.cpy"], Comments { line: &["*>"], blocks: &[], nested: false }),
        marked("CQL", &["*.cql"], Comments { line: &["--", "//"], blocks: &[("/*", "*/")], nested: false }),
        marked("ColdFusion", &["*.cfm", "*.cfml"], Comments { line: &[], blocks: &[("<!---", "--->")], nested: true }),
        marked("ColdFusion CFC", &["*.cfc"], Comments { line: &[], blocks: &[("<!---", "--->"), ("/*", "*/")], nested: false }),
        marked("Common Lisp", &["*.lisp", "*.asd", "*.cl", "*.lsp", "*.ny", "*.podsl", "*.sexp"], Comments { line: &[";"], blocks: &[("#|", "|#")], nested: true }),
        marked("Csound", &["*.orc", "*.udo"], Comments { line: &[";", "//"], blocks: &[("/*", "*/")], nested: false }),
        marked("D", &["*.d", "*.di"], Comments { line: &["//"], blocks: &[("/*", "*/"), ("/+", "+/")], nested: false }),
        marked("DIGITAL Command Language", &["*.com"], Comments { line: &["!"], blocks: &[], nested: false }),
        marked("F*", &["*.fst", "*.fsti"], Comments { line: &["//"], blocks: &[("(*", "*)")], nested: true }),
        marked("Factor", &["*.factor", ".factor-boot-rc", ".factor-rc"], Comments { line: &["!"], blocks: &[], nested: false }),
        marked("Forth", &["*.fth", "*.4th", "*.forth", "*.frt"], Comments { line: &["\\"], blocks: &[], nested: false }),
        marked("Fortran", &["*.f", "*.f77", "*.for"], Comments { line: &["!"], blocks: &[], nested: false }),
        marked("Fortran Free Form", &["*.f90", "*.f03", "*.f08", "*.f95"], Comments { line: &["!"], blocks: &[], nested: false }),
        marked("FreeBASIC", &["*.bi"], Comments { line: &["'"], blocks: &[("/'", "'/")], nested: false }),
        marked("FreeMarker", &["*.ftl", "*.ftlh"], Comments { line: &[], blocks: &[("<#--", "-->")], nested: false }),
        marked("Futhark", &["*.fut"], Comments { line: &["--"], blocks: &[], nested: false }),
        marked("GAMS", &["*.gms"], Comments { line: &["*"], blocks: &[], nested: false }),
        marked("Go Template", &["*.gohtml", "*.gotmpl", "*.html.tmpl", "*.tmpl", "_helpers.tpl"], Comments { line: &[], blocks: &[("{{/*", "*/}}")], nested: false }),
        marked("HTML+ERB", &["*.erb", "*.erb.deface", "*.rhtml"], Comments { line: &[], blocks: &[("<!--", "-->"), ("<%#", "%>")], nested: false }),
        marked("HTML+Razor", &["*.cshtml", "*.razor"], Comments { line: &["//"], blocks: &[("<!--", "-->"), ("@*", "*@")], nested: false }),
    ]
}

fn other_languages_first_list() -> (r: Vec<Language>)
    ensures
        r@ == other_languages_first(),
{
    let r: Vec<Language> = vec![
        marked_language("ABAP", &["*.abap"], Comments { line: &["*", "\""], blocks: &[], nested: false }),
        marked_language("AMPL", &["*.ampl"], Comments { line: &["#"], blocks: &[("/*", "*/")], nested: false }),
        marked_language("ASP.NET", &["*.asax", "*.ascx", "*.ashx", "*.asmx", "*.aspx", "*.axd"], Comments { line: &[], blocks: &[("<!--", "-->"), ("<%--", "--%>")], nested: false }),
        marked_language("Ada", &["*.adb", "*.ada", "*.ads"], Comments { line: &["--"], blocks: &[], nested: false }),
        marked_language("Alloy", &["*.als"], Comments { line: &["--", "//"], blocks: &[("/*", "*/")], nested: false }),
        marked_language("AppleScript", &["*.applescript", "*.scpt"], Comments { line: &["--", "#"], blocks: &[("(*", "*)")], nested: true }),
        marked_language("AutoHotkey", &["*.ahk", "*.ah1", "*.ah2", "*.ahkl"], Comments { line: &[";"], blocks: &[("/*", "*/")], nested: false }),
        marked_language("AutoIt", &["*.au3"], Comments { line: &[";"], blocks: &[("#cs", "#ce")], nested: false }),
        marked_language("BASIC", &["*.bas"], Comments { line: &["REM", "'"], blocks: &[], nested: false }),
        marked_language("Blade", &["*.blade", "*.blade.php"], Comments { line: &[], blocks: &[("{{--", "--}}"), ("<!--", "-->")], nested: false }),
        marked_language("COBOL", &["*.cob", "*.cbl", "*.ccp", "*.cobol", "*.cpy"], Comments { line: &["*>"], blocks: &[], nested: false }),
        marked_language("CQL", &["*.cql"], Comments { line: &["--", "//"], blocks: &[("/*", "*/")], nested: false }),
        marked_language("ColdFusion", &["*.cfm", "*.cfml"], Comments { line: &[], blocks: &[("<!---", "--->")], nested: true }),
        marked_language("ColdFusion CFC", &["*.cfc"], Comments { line: &[], blocks: &[("<!---", "--->"), ("/*", "*/")], nested: false }),
        marked_language("Common Lisp", &["*.lisp", "*.asd", "*.cl", "*.lsp", "*.ny", "*.podsl", "*.sexp"], Comments { line: &[";"], blocks: &[("#|", "|#")], nested: true }),
        marked_language("Csound", &["*.orc", "*.udo"], Comments { line: &[";", "//"], blocks: &[("/*", "*/")], nested: false }),
        marked_language("D", &["*.d", "*.di"], Comments { line: &["//"], blocks: &[("/*", "*/"), ("/+", "+/")], nested: false }),
        marked_language("DIGITAL Command Language", &["*.com"], Comments { line: &["!"], blocks: &[], nested: false }),
        marked_language("F*", &["*.fst", "*.fsti"], Comments { line: &["//"], blocks: &[("(*", "*)")], nested: true }),
        marked_language("Factor", &["*.factor", ".factor-boot-rc", ".factor-rc"], Comments { line: &["!"], blocks: &[], nested: false }),
        marked_language("Forth", &["*.fth", "*.4th", "*.forth", "*.frt"], Comments { line: &["\\"], blocks: &[], nested: false }),
        marked_language("Fortran", &["*.f", "*.f77", "*.for"], Comments { line: &["!"], blocks: &[], nested: false }),
        marked_language("Fortran Free Form", &["*.f90", "*.f03", "*.f08", "*.f95"], Comments { line: &["!"], blocks: &[], nested: false }),
        marked_language("FreeBASIC", &["*.bi"], Comments { line: &["'"], blocks: &[("/'", "'/")], nested: false }),
        marked_language("FreeMarker", &["*.ftl", "*.ftlh"], Comments { line: &[], blocks: &[("<#--", "-->")], nested: false }),
        marked_language("Futhark", &["*.fut"], Comments { line: &["--"], blocks: &[], nested: false }),
        marked_language("GAMS", &["*.gms"], Comments { line: &["*"], blocks: &[], nested: false }),
        marked_language("Go Template", &["*.gohtml", "*.gotmpl", "*.html.tmpl", "*.tmpl", "_helpers.tpl"], Comments { line: &[], blocks: &[("{{/*", "*/}}")], nested: false }),
        marked_language("HTML+ERB", &["*.erb", "*.erb.deface", "*.rhtml"], Comments { line: &[], blocks: &[("<!--", "-->"), ("<%#", "%>")], nested: false }),
        marked_language("HTML+Razor", &["*.cshtml", "*.razor"], Comments { line: &["//"], blocks: &[("<!--", "-->"), ("@*", "*@")], nested: false }),
    ];
    proof {
        reveal(other_languages_first);
        assert(r@ =~= other_languages_first());
    }
    r
}

/// Languages that write their comments each in its own way.
#[verifier::opaque]
pub open spec fn other_languages_second() -> Seq<Language> {
    seq![
        marked("Haml", &["*.haml", "*.haml.deface"], Comments { line: &["-#"], blocks: &[], nested: false }),
        marked("Handlebars", &["*.handlebars", "*.hbs"], Comments { line: &[], blocks: &[("<!--", "-->"), ("{{!", "}}")], nested: false }),
        marked("J", &["*.ijs"], Comments { line: &["NB."], blocks: &[], nested: false }),
        marked("Java Server Pages", &["*.jsp"], Comments { line: &["//"], blocks: &[("<!--", "-->"), ("<%--", "--%>"), ("/*", "*/")], nested: false }),
        marked("Jinja", &["*.jinja", "*.j2", "*.jinja2"], Comments { line: &[], blocks: &[("{#", "#}")], nested: false }),
        marked("Lean", &["*.lean", "*.hlean"], Comments { line: &["--"], blocks: &[("/-", "-/")], nested: true }),
        marked("LilyPond", &["*.ly", "*.ily"], Comments { line: &["%"], blocks: &[("%{", "%}")], nested: false }),
        marked("Liquid", &["*.liquid"], Comments { line: &[], blocks: &[("<!--", "-->"), ("{% comment %}", "{% endcomment %}")], nested: false }),
        marked("LiveScript", &["*.ls", "*._ls", "Slakefile"], Comments { line: &["#"], blocks: &[("/*", "*/")], nested: false }),
        marked("Luau", &["*.luau"], Comments { line: &["--"], blocks: &[("--[[", "]]")], nested: false }),
        marked("M4", &["*.m4"], Comments { line: &["#", "dnl"], blocks: &[], nested: false }),
        marked("Mermaid", &["*.mmd", "*.mermaid"], Comments { line: &["%%"], blocks: &[], nested: false }),
        marked("MoonScript", &["*.moon"], Comments { line: &["--"], blocks: &[], nested: false }),
        marked("Mustache", &["*.mustache"], Comments { line: &[], blocks: &[("{{!", "}}")], nested: false }),
        marked("NSIS", &["*.nsi", "*.nsh"], Comments { line: &["#", ";"], blocks: &[("/*", "*/")], nested: false }),
        marked("Nunjucks", &["*.njk"], Comments { line: &[], blocks: &[("{#", "#}")], nested: false }),
        marked("OverPy", &["*.opy"], Comments { line: &["#"], blocks: &[("/*", "*/")], nested: false }),
        marked("Pascal", &["*.pas", "*.dfm", "*.dpr", "*.lpr", "*.pascal"], Comments { line: &["//"], blocks: &[("{", "}"), ("(*", "*)")], nested: false }),
        marked("PostScript", &["*.ps", "*.eps", "*.epsi", "*.pfa"], Comments { line: &["%"], blocks: &[], nested: false }),
        marked("REXX", &["*.rexx", "*.pprx", "*.rex"], Comments { line: &["--"], blocks: &[("/*", "*/")], nested: true }),
        marked("Racket", &["*.rkt", "*.rktd", "*.rktl", "*.scrbl"], Comments { line: &[";"], blocks: &[("#|", "|#")], nested: true }),
        marked("SAS", &["*.sas"], Comments { line: &[], blocks: &[("/*", "*/")], nested: false }),
        marked("Scheme", &["*.scm", "*.sch", "*.sld", "*.sps", "*.ss"], Comments { line: &[";"], blocks: &[("#|", "|#")], nested: true }),
        marked("Slim", &["*.slim"], Comments { line: &["/"], blocks: &[], nested: false }),
        marked("Smalltalk", &["*.st"], Comments { line: &[], blocks: &[("\"", "\"")], nested: false }),
        marked("Smarty", &["*.tpl"], Comments { line: &[], blocks: &[("{*", "*}")], nested: false }),
        marked("Stata", &["*.do", "*.ado", "*.doh", "*.ihlp", "*.mata", "*.matah", "*.sthlp"], Comments { line: &["*", "//"], blocks: &[("/*", "*/")], nested: false }),
        marked("TLA", &["*.tla"], Comments { line: &["\\*"], blocks: &[("(*", "*)")], nested: true }),
        marked("TXL", &["*.txl"], Comments { line: &["%"], blocks: &[], nested: false }),
        marked("TeX", &["*.tex", "*.aux", "*.bbx", "*.cbx", "*.dtx", "*.ins", "*.lbx", "*.ltx", "*.mkii", "*.mkiv", "*.mkvi", "*.sty"], Comments { line: &["%"], blocks: &[], nested: false }),
    ]
}

fn other_languages_second_list() -> (r: Vec<Language>)
    ensures
        r@ == other_languages_second(),
{
    let r: Vec<Language> = vec![
        marked_language("Haml", &["*.haml", "*.haml.deface"], Comments { line: &["-#"], blocks: &[], nested: false }),
        marked_language("Handlebars", &["*.handlebars", "*.hbs"], Comments { line: &[], blocks: &[("<!--", "-->"), ("{{!", "}}")], nested: false }),
        marked_language("J", &["*.ijs"], Comments { line: &["NB."], blocks: &[], nested: false }),
        marked_language("Java Server Pages", &["*.jsp"], Comments { line: &["//"], blocks: &[("<!--", "-->"), ("<%--", "--%>"), ("/*", "*/")], nested: false }),
        marked_language("Jinja", &["*.jinja", "*.j2", "*.jinja2"], Comments { line: &[], blocks: &[("{#", "#}")], nested: false }),
        marked_language("Lean", &["*.lean", "*.hlean"], Comments { line: &["--"], blocks: &[("/-", "-/")], nested: true }),
        marked_language("LilyPond", &["*.ly", "*.ily"], Comments { line: &["%"], blocks: &[("%{", "%}")], nested: false }),
        marked_language("Liquid", &["*.liquid"], Comments { line: &[], blocks: &[("<!--", "-->"), ("{% comment %}", "{% endcomment %}")], nested: false }),
        marked_language("LiveScript", &["*.ls", "*._ls", "Slakefile"], Comments { line: &["#"], blocks: &[("/*", "*/")], nested: false }),
        marked_language("Luau", &["*.luau"], Comments { line: &["--"], blocks: &[("--[[", "]]")], nested: false }),
        marked_language("M4", &["*.m4"], Comments { line: &["#", "dnl"], blocks: &[], nested: false }),
        marked_language("Mermaid", &["*.mmd", "*.mermaid"], Comments { line: &["%%"], blocks: &[], nested: false }),
        marked_language("MoonScript", &["*.moon"], Comments { line: &["--"], blocks: &[], nested: false }),
        marked_language("Mustache", &["*.mustache"], Comments { line: &[], blocks: &[("{{!", "}}")], nested: false }),
        marked_language("NSIS", &["*.nsi", "*.nsh"], Comments { line: &["#", ";"], blocks: &[("/*", "*/")], nested: false }),
        marked_language("Nunjucks", &["*.njk"], Comments { line: &[], blocks: &[("{#", "#}")], nested: false }),
        marked_language("OverPy", &["*.opy"], Comments { line: &["#"], blocks: &[("/*", "*/")], nested: false }),
        marked_language("Pascal", &["*.pas", "*.dfm", "*.dpr", "*.lpr", "*.pascal"], Comments { line: &["//"], blocks: &[("{", "}"), ("(*", "*)")], nested: false }),
        marked_language("PostScript", &["*.ps", "*.eps", "*.epsi", "*.pfa"], Comments { line: &["%"], blocks: &[], nested: false }),
        marked_language("REXX", &["*.rexx", "*.pprx", "*.rex"], Comments { line: &["--"], blocks: &[("/*", "*/")], nested: true }),
        marked_language("Racket", &["*.rkt", "*.rktd", "*.rktl", "*.scrbl"], Comments { line: &[";"], blocks: &[("#|", "|#")], nested: true }),
        marked_language("SAS", &["*.sas"], Comments { line: &[], blocks: &[("/*", "*/")], nested: false }),
        marked_language("Scheme", &["*.scm", "*.sch", "*.sld", "*.sps", "*.ss"], Comments { line: &[";"], blocks: &[("#|", "|#")], nested: true }),
        marked_language("Slim", &["*.slim"], Comments { line: &["/"], blocks: &[], nested: false }),
        marked_language("Smalltalk", &["*.st"], Comments { line: &[], blocks: &[("\"", "\"")], nested: false }),
        marked_language("Smarty", &["*.tpl"], Comments { line: &[], blocks: &[("{*", "*}")], nested: false }),
        marked_language("Stata", &["*.do", "*.ado", "*.doh", "*.ihlp", "*.mata", "*.matah", "*.sthlp"], Comments { line: &["*", "//"], blocks: &[("/*", "*/")], nested: false }),
        marked_language("TLA", &["*.tla"], Comments { line: &["\\*"], blocks: &[("(*", "*)")], nested: true }),
        marked_language("TXL", &["*.txl"], Comments { line: &["%"], blocks: &[], nested: false }),
        marked_language("TeX", &["*.tex", "*.aux", "*.bbx", "*.cbx", "*.dtx", "*.ins", "*.lbx", "*.ltx", "*.mkii", "*.mkiv", "*.mkvi", "*.sty"], Comments { line: &["%"], blocks: &[], nested: false }),
    ];
    proof {
        reveal(other_languages_second);
        assert(r@ =~= other_languages_second());
    }
    r
}

/// Languages that write their comments each in its own way.
#[verifier::opaque]
pub open spec fn other_languages_third() -> Seq<Language> {
    seq![
        marked("Teal", &["*.tl"], Comments { line: &["--"], blocks: &[("--[[", "]]")], nested: false }),
        marked("Twig", &["*.twig"], Comments { line: &[], blocks: &[("{#", "#}")], nested: false }),
        marked("Unix Assembly", &["*.s"], Comments { line: &["#"], blocks: &[("/*", "*/")], nested: false }),
        marked("VHDL", &["*.vhdl", "*.vhd", "*.vhf", "*.vhi", "*.vho", "*.vhs", "*.vht", "*.vhw"], Comments { line: &["--"], blocks: &[], nested: false }),
        marked("Velocity Template Language", &["*.vtl"], Comments { line: &["##"], blocks: &[("#*", "*#")], nested: false }),
        marked("WebAssembly", &["*.wast", "*.wat"], Comments { line: &[";;"], blocks: &[("(;", ";)")], nested: true }),
        marked("XQuery", &["*.xquery", "*.xq", "*.xql", "*.xqm", "*.xqy"], Comments { line: &[], blocks: &[("(:", ":)")], nested: true }),
        marked("Xmake", &["xmake.lua"], Comments { line: &["--"], blocks: &[("--[[", "]]")], nested: false }),
        marked("Xojo", &["*.xojo_code", "*.xojo_menu", "*.xojo_report", "*.xojo_script", "*.xojo_toolbar", "*.xojo_window"], Comments { line: &["'", "//"], blocks: &[], nested: false }),
    ]
}

fn other_languages_third_list() -> (r: Vec<Language>)
    ensures
        r@ == other_languages_third(),
{
    let r: Vec<Language> = vec![
        marked_language("Teal", &["*.tl"], Comments { line: &["--"], blocks: &[("--[[", "]]")], nested: false }),
        marked_language("Twig", &["*.twig"], Comments { line: &[], blocks: &[("{#", "#}")], nested: false }),
        marked_language("Unix Assembly", &["*.s"], Comments { line: &["#"], blocks: &[("/*", "*/")], nested: false }),
        marked_language("VHDL", &["*.vhdl", "*.vhd", "*.vhf", "*.vhi", "*.vho", "*.vhs", "*.vht", "*.vhw"], Comments { line: &["--"], blocks: &[], nested: false }),
        marked_language("Velocity Template Language", &["*.vtl"], Comments { line: &["##"], blocks: &[("#*", "*#")], nested: false }),
        marked_language("WebAssembly", &["*.wast", "*.wat"], Comments { line: &[";;"], blocks: &[("(;", ";)")], nested: true }),
        marked_language("XQuery", &["*.xquery", "*.xq", "*.xql", "*.xqm", "*.xqy"], Comments { line: &[], blocks: &[("(:", ":)")], nested: true }),
        marked_language("Xmake", &["xmake.lua"], Comments { line: &["--"], blocks: &[("--[[", "]]")], nested: false }),
        marked_language("Xojo", &["*.xojo_code", "*.xojo_menu", "*.xojo_report", "*.xojo_script", "*.xojo_toolbar", "*.xojo_window"], Comments { line: &["'", "//"], blocks: &[], nested: false }),
    ];
    proof {
        reveal(other_languages_third);
        assert(r@ =~= other_languages_third());
    }
    r
}

/// All further languages.
pub open spec fn further_languages() -> Seq<Language> {
    commented(slash_languages_first(), slash_comments()) + commented(slash_languages_second(), slash_comments()) + commented(slash_languages_third(), slash_comments()) + commented(hash_languages_first(), hash_comments()) + commented(hash_languages_second(), hash_comments()) + commented(semicolon_languages(), semicolon_comments()) + commented(markup_languages(), markup_comments()) + commented(nested_languages(), nested_comments()) + commented(star_languages(), star_comments()) + commented(line_languages(), line_comments()) + commented(dash_languages(), dash_comments()) + commented(mixed_languages(), mixed_comments()) + commented(query_languages(), query_comments()) + commented(quote_languages(), quote_comments()) + commented(percent_languages(), percent_comments()) + other_languages_first() + other_languages_second() + other_languages_third()
}

/// Appends all further languages.
pub fn push_further(out: &mut Vec<Language>)
    ensures
        final(out)@ == old(out)@ + further_languages(),
{
    let ghost start = out@;
    push_all(out, slash_languages_first_list().as_slice(), slash_comments_value());
    push_all(out, slash_languages_second_list().as_slice(), slash_comments_value());
    push_all(out, slash_languages_third_list().as_slice(), slash_comments_value());
    push_all(out, hash_languages_first_list().as_slice(), hash_comments_value());
    push_all(out, hash_languages_second_list().as_slice(), hash_comments_value());
    push_all(out, semicolon_languages_list().as_slice(), semicolon_comments_value());
    push_all(out, markup_languages_list().as_slice(), markup_comments_value());
    push_all(out, nested_languages_list().as_slice(), nested_comments_value());
    push_all(out, star_languages_list().as_slice(), star_comments_value());
    push_all(out, line_languages_list().as_slice(), line_comments_value());
    push_all(out, dash_languages_list().as_slice(), dash_comments_value());
    push_all(out, mixed_languages_list().as_slice(), mixed_comments_value());
    push_all(out, query_languages_list().as_slice(), query_comments_value());
    push_all(out, quote_languages_list().as_slice(), quote_comments_value());
    push_all(out, percent_languages_list().as_slice(), percent_comments_value());
    let mut rest = other_languages_first_list();
    out.append(&mut rest);
    let mut rest = other_languages_second_list();
    out.append(&mut rest);
    let mut rest = other_languages_third_list();
    out.append(&mut rest);
    proof {
        assert(out@ =~= start + further_languages());
    }
}

} // verus!
