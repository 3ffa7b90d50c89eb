# web_search_agent

An autonomous research agent: it answers a question by calling a chat model that can use
four tools (web search, page fetch, weather, crypto prices), and returns a structured report
with sources, confidence, key findings, the queries it ran and its limitations, together with
an audit trail of every tool call.

- `src/` is the verified library. The run is a state machine (`agent::AgentRun`) that takes
  model replies and tool outcomes and decides what happens next: the wall-clock, iteration and
  context guards, loop detection, the URL fetch cap, the audit trail and the final report.
  The tools' argument reading, request building and response shaping, the retry policy of
  model calls and the report assembly are verified functions too.
- `app/` is the program around it: configuration from the environment, HTTP requests,
  the asynchronous loop that performs the actions the library decides, logging and output.
